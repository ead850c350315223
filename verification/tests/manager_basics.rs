use srdwm::manager::{Direction, WindowManager};
use srdwm::rules::{WindowMatch, WindowRule, WindowRuleActions};
use srdwm::window::{ResizeEdge, TitlebarHit, Window};
use srdwm::{Monitor, Rect};

fn wm_with_monitor() -> WindowManager {
    let mut wm = WindowManager::new();
    wm.set_monitors(vec![{
        let mut m = Monitor::new(0, "primary", Rect::new(0, 0, 1920, 1080));
        m.primary = true;
        m
    }]);
    wm
}

#[test]
fn manager_tiling_workspace_arranges_two_windows_side_by_side() {
    let mut wm = wm_with_monitor();
    wm.set_layout(wm.current_workspace(), "tiling");
    let a = wm.alloc_window_id();
    wm.add_window(Window::new(a, "a"));
    let b = wm.alloc_window_id();
    wm.add_window(Window::new(b, "b"));

    wm.arrange_workspace(wm.current_workspace());
    let ra = wm.window(a).unwrap().geometry;
    let rb = wm.window(b).unwrap().geometry;
    assert!(!ra.overlaps(&rb));
    assert_eq!(ra.y, rb.y);
    assert!(ra.x < rb.x);
}

#[test]
fn manager_floating_window_is_skipped_by_tiling_arrange() {
    let mut wm = wm_with_monitor();
    wm.set_layout(wm.current_workspace(), "tiling");
    let a = wm.alloc_window_id();
    wm.add_window(Window::new(a, "a"));
    wm.toggle_floating(a);
    let before = wm.window(a).unwrap().geometry;
    wm.arrange_workspace(wm.current_workspace());
    assert_eq!(wm.window(a).unwrap().geometry, before);
}

#[test]
fn manager_focus_cycles_forward_and_wraps() {
    let mut wm = wm_with_monitor();
    let a = wm.alloc_window_id();
    wm.add_window(Window::new(a, "a"));
    let b = wm.alloc_window_id();
    wm.add_window(Window::new(b, "b"));
    assert_eq!(wm.focused_id(), Some(b));
    wm.focus_next();
    assert_eq!(wm.focused_id(), Some(a));
    wm.focus_next();
    assert_eq!(wm.focused_id(), Some(b));
}

#[test]
fn manager_minimized_window_is_skipped_by_focus_cycling() {
    let mut wm = wm_with_monitor();
    let a = wm.alloc_window_id();
    wm.add_window(Window::new(a, "a"));
    let b = wm.alloc_window_id();
    wm.add_window(Window::new(b, "b"));
    wm.minimize_window(a);
    wm.focus_window(b);
    wm.focus_next();
    assert_eq!(wm.focused_id(), Some(b), "only unminimized window should ever be focused");
}

#[test]
fn manager_drag_moves_window_by_pointer_delta() {
    let mut wm = wm_with_monitor();
    wm.set_layout(wm.current_workspace(), "tiling");
    let a = wm.alloc_window_id();
    let mut w = Window::new(a, "a");
    w.geometry = Rect::new(300, 300, 400, 300);
    wm.add_window(w);
    wm.start_drag(a, 310, 310);
    wm.update_drag(360, 340);
    let g = wm.window(a).unwrap().geometry;
    assert_eq!((g.x, g.y), (350, 330));
    wm.end_drag();
    assert!(!wm.is_dragging());
}

#[test]
fn manager_resize_from_bottom_right_grows_size_only() {
    let mut wm = wm_with_monitor();
    wm.set_layout(wm.current_workspace(), "tiling");
    let a = wm.alloc_window_id();
    let mut w = Window::new(a, "a");
    w.geometry = Rect::new(100, 100, 300, 200);
    wm.add_window(w);
    wm.start_resize(a, ResizeEdge::BottomRight, 400, 300);
    wm.update_resize(450, 340);
    let g = wm.window(a).unwrap().geometry;
    assert_eq!(g, Rect::new(100, 100, 350, 240));
    wm.end_resize();
    assert!(!wm.is_resizing());
}

#[test]
fn manager_toggle_maximize_restores_original_geometry() {
    let mut wm = wm_with_monitor();
    let a = wm.alloc_window_id();
    let mut w = Window::new(a, "a");
    w.geometry = Rect::new(50, 50, 300, 200);
    wm.add_window(w);
    let original = wm.window(a).unwrap().geometry;
    wm.toggle_maximize(a);
    assert_eq!(wm.window(a).unwrap().geometry, Rect::new(0, 0, 1920, 1080));
    wm.toggle_maximize(a);
    assert_eq!(wm.window(a).unwrap().geometry, original);
}

#[test]
fn manager_directional_focus_picks_nearest_window_in_that_direction() {
    let mut wm = wm_with_monitor();
    wm.set_layout(wm.current_workspace(), "tiling");
    let center = wm.alloc_window_id();
    let mut wc = Window::new(center, "center");
    wc.geometry = Rect::new(500, 500, 100, 100);
    wm.add_window(wc);
    let left = wm.alloc_window_id();
    let mut wl = Window::new(left, "left");
    wl.geometry = Rect::new(0, 500, 100, 100);
    wm.add_window(wl);
    let right = wm.alloc_window_id();
    let mut wr = Window::new(right, "right");
    wr.geometry = Rect::new(1000, 500, 100, 100);
    wm.add_window(wr);

    wm.focus_window(center);
    assert_eq!(wm.focus_direction(Direction::Left), Some(left));
    assert_eq!(wm.focused_id(), Some(left));

    wm.focus_window(center);
    assert_eq!(wm.focus_direction(Direction::Right), Some(right));
}

#[test]
fn manager_hit_test_prefers_topmost_window() {
    let mut wm = wm_with_monitor();
    wm.set_layout(wm.current_workspace(), "tiling");
    let a = wm.alloc_window_id();
    let mut wa = Window::new(a, "a");
    wa.geometry = Rect::new(0, 0, 400, 300);
    wm.add_window(wa);
    let b = wm.alloc_window_id();
    let mut wb = Window::new(b, "b");
    wb.geometry = Rect::new(0, 0, 400, 300);
    wm.add_window(wb);

    let (hit_id, hit) = wm.hit_test(200, 10).unwrap();
    assert_eq!(hit_id, b);
    assert_eq!(hit, TitlebarHit::Drag);
}

#[test]
fn manager_moving_window_to_another_workspace_removes_it_from_current() {
    let mut wm = wm_with_monitor();
    let a = wm.alloc_window_id();
    wm.add_window(Window::new(a, "a"));
    let ws2 = wm.add_workspace("2", "dynamic");
    wm.move_window_to_workspace(a, ws2);
    assert_eq!(wm.visible_windows().len(), 0);
    wm.switch_workspace(ws2);
    assert_eq!(wm.visible_windows().len(), 1);
}

#[test]
fn manager_matching_rule_floats_new_window_on_add() {
    let mut wm = wm_with_monitor();
    wm.set_layout(wm.current_workspace(), "tiling");
    wm.add_rule(WindowRule {
        matcher: WindowMatch { title_contains: Some("calculator".into()), ..Default::default() },
        actions: WindowRuleActions { floating: Some(true), ..Default::default() },
    });
    let id = wm.alloc_window_id();
    wm.add_window(Window::new(id, "Calculator"));
    assert!(wm.is_floating(id));
}

#[test]
fn manager_non_matching_rule_leaves_window_untouched() {
    let mut wm = wm_with_monitor();
    wm.add_rule(WindowRule {
        matcher: WindowMatch { title_contains: Some("calculator".into()), ..Default::default() },
        actions: WindowRuleActions { floating: Some(true), ..Default::default() },
    });
    let id = wm.alloc_window_id();
    wm.add_window(Window::new(id, "Terminal"));
    assert!(!wm.is_floating(id));
}

#[test]
fn manager_rule_assigns_window_to_target_workspace() {
    let mut wm = wm_with_monitor();
    let target = wm.add_workspace("scratch", "dynamic");
    wm.add_rule(WindowRule {
        matcher: WindowMatch { class: Some("scratchpad".into()), ..Default::default() },
        actions: WindowRuleActions { workspace: Some(target), ..Default::default() },
    });
    let id = wm.alloc_window_id();
    let mut w = Window::new(id, "notes");
    w.app_id = "scratchpad".into();
    wm.add_window(w);
    assert_eq!(wm.window(id).unwrap().workspace, target);
}

#[test]
fn manager_removing_a_workspace_reassigns_its_windows() {
    let mut wm = wm_with_monitor();
    let ws2 = wm.add_workspace("2", "dynamic");
    wm.switch_workspace(ws2);
    let a = wm.alloc_window_id();
    wm.add_window(Window::new(a, "a"));
    wm.remove_workspace(ws2);
    assert_ne!(wm.window(a).unwrap().workspace, ws2);
    assert!(wm.workspace(ws2).is_none());
}

fn two_monitors() -> Vec<Monitor> {
    let mut a = Monitor::new(0, "primary", Rect::new(0, 0, 1280, 800));
    a.primary = true;
    let b = Monitor::new(1, "secondary", Rect::new(1280, 0, 1920, 1080));
    vec![a, b]
}

#[test]
fn manager_unplugging_a_monitor_rehomes_its_windows_to_the_primary() {
    let mut wm = WindowManager::new();
    wm.set_monitors(two_monitors());

    let id = wm.alloc_window_id();
    let mut w = Window::new(id, "on-second-monitor");
    w.geometry = Rect::new(1500, 200, 600, 400);
    wm.add_window(w);
    wm.window_mut(id).unwrap().monitor = 1;

    wm.set_monitors(vec![two_monitors().remove(0)]);

    let w = wm.window(id).unwrap();
    assert_eq!(w.monitor, 0, "window should be rehomed to the primary monitor");
    assert!(
        Rect::new(0, 0, 1280, 800).overlaps(&w.geometry),
        "rehomed window should be on-screen, got {:?}",
        w.geometry
    );
}

#[test]
fn manager_windows_already_on_a_surviving_monitor_are_left_alone() {
    let mut wm = WindowManager::new();
    wm.set_monitors(two_monitors());

    let id = wm.alloc_window_id();
    let mut w = Window::new(id, "on-primary");
    w.geometry = Rect::new(10, 20, 300, 200);
    wm.add_window(w);
    wm.window_mut(id).unwrap().monitor = 0;
    wm.window_mut(id).unwrap().geometry = Rect::new(10, 20, 300, 200);

    wm.set_monitors(vec![two_monitors().remove(0)]);

    let w = wm.window(id).unwrap();
    assert_eq!(w.monitor, 0);
    assert_eq!(w.geometry, Rect::new(10, 20, 300, 200), "untouched window must not move");
}

#[test]
fn manager_a_window_still_overlapping_the_primary_keeps_its_geometry() {
    let mut wm = WindowManager::new();
    wm.set_monitors(two_monitors());

    let id = wm.alloc_window_id();
    let mut w = Window::new(id, "straddling");
    wm.add_window(w.clone());
    w.geometry = Rect::new(1200, 100, 400, 300);
    wm.window_mut(id).unwrap().monitor = 1;
    wm.window_mut(id).unwrap().geometry = w.geometry;

    wm.set_monitors(vec![two_monitors().remove(0)]);

    let got = wm.window(id).unwrap();
    assert_eq!(got.monitor, 0, "monitor id must still be remapped");
    assert_eq!(got.geometry, Rect::new(1200, 100, 400, 300), "already-visible geometry should be kept");
}

#[test]
fn manager_losing_every_monitor_leaves_windows_intact_for_when_one_returns() {
    let mut wm = WindowManager::new();
    wm.set_monitors(two_monitors());
    let id = wm.alloc_window_id();
    let mut w = Window::new(id, "orphan");
    w.geometry = Rect::new(1500, 200, 600, 400);
    wm.add_window(w);
    wm.window_mut(id).unwrap().monitor = 1;
    wm.window_mut(id).unwrap().geometry = Rect::new(1500, 200, 600, 400);

    wm.set_monitors(Vec::new());

    let got = wm.window(id).unwrap();
    assert_eq!(got.geometry, Rect::new(1500, 200, 600, 400));
    assert_eq!(got.monitor, 1);
}

#[test]
fn manager_a_window_whose_monitor_field_is_stale_is_still_rescued() {
    let mut wm = WindowManager::new();
    wm.set_monitors(two_monitors());

    let id = wm.alloc_window_id();
    let w = Window::new(id, "placed-by-rule");
    wm.add_window(w);
    wm.window_mut(id).unwrap().geometry = Rect::new(1500, 200, 600, 400);
    assert_eq!(wm.window(id).unwrap().monitor, 0, "precondition: stale field");

    wm.set_monitors(vec![two_monitors().remove(0)]);

    let got = wm.window(id).unwrap();
    assert!(
        Rect::new(0, 0, 1280, 800).overlaps(&got.geometry),
        "window must be pulled back on-screen, got {:?}",
        got.geometry
    );
}

#[test]
fn manager_fullscreen_covers_the_monitor_and_restores_the_original_geometry() {
    let mut wm = WindowManager::new();
    wm.set_monitors(two_monitors());
    let id = wm.alloc_window_id();
    let mut w = Window::new(id, "app");
    w.geometry = Rect::new(100, 100, 400, 300);
    wm.add_window(w);
    wm.window_mut(id).unwrap().geometry = Rect::new(100, 100, 400, 300);

    wm.toggle_fullscreen(id);
    let got = wm.window(id).unwrap();
    assert!(got.fullscreen);
    assert_eq!(got.geometry, Rect::new(0, 0, 1280, 800), "should cover the whole monitor");
    assert!(!got.decorated, "fullscreen must drop the titlebar");

    wm.toggle_fullscreen(id);
    let got = wm.window(id).unwrap();
    assert!(!got.fullscreen);
    assert_eq!(got.geometry, Rect::new(100, 100, 400, 300));
    assert!(got.decorated);
}

#[test]
fn manager_fullscreen_from_maximized_still_restores_the_pre_maximize_size() {
    let mut wm = WindowManager::new();
    wm.set_monitors(two_monitors());
    let id = wm.alloc_window_id();
    let mut w = Window::new(id, "app");
    w.geometry = Rect::new(50, 60, 300, 200);
    wm.add_window(w);
    wm.window_mut(id).unwrap().geometry = Rect::new(50, 60, 300, 200);

    wm.toggle_maximize(id);
    wm.toggle_fullscreen(id);
    assert!(wm.is_fullscreen(id));
    assert!(!wm.window(id).unwrap().maximized, "the two states are mutually exclusive");

    wm.toggle_fullscreen(id);
    assert_eq!(
        wm.window(id).unwrap().geometry,
        Rect::new(50, 60, 300, 200),
        "must restore the size from before maximise, not the monitor rect"
    );
}

#[test]
fn manager_tiling_leaves_fullscreen_windows_alone() {
    let mut wm = WindowManager::new();
    wm.set_monitors(two_monitors());
    wm.set_layout(wm.current_workspace(), "tiling");
    let a = wm.alloc_window_id();
    wm.add_window(Window::new(a, "tiled"));
    let b = wm.alloc_window_id();
    wm.add_window(Window::new(b, "full"));
    wm.toggle_fullscreen(b);

    let changes = wm.arrange_workspace(wm.current_workspace());
    assert!(
        !changes.iter().any(|(id, _)| *id == b),
        "a fullscreen window must not be re-tiled"
    );
    assert_eq!(wm.window(b).unwrap().geometry, Rect::new(0, 0, 1280, 800));
}

#[test]
fn manager_moving_a_window_swaps_it_with_its_neighbour() {
    let mut wm = wm_with_monitor();
    let left = wm.alloc_window_id();
    let mut a = Window::new(left, "left");
    a.geometry = Rect::new(0, 0, 400, 400);
    wm.add_window(a);
    wm.window_mut(left).unwrap().geometry = Rect::new(0, 0, 400, 400);

    let right = wm.alloc_window_id();
    let mut b = Window::new(right, "right");
    b.geometry = Rect::new(600, 0, 400, 400);
    wm.add_window(b);
    wm.window_mut(right).unwrap().geometry = Rect::new(600, 0, 400, 400);

    wm.focus_window(left);
    let swapped = wm.move_window_direction(Direction::Right);

    assert_eq!(swapped, Some(right));
    assert_eq!(wm.window(left).unwrap().geometry, Rect::new(600, 0, 400, 400));
    assert_eq!(wm.window(right).unwrap().geometry, Rect::new(0, 0, 400, 400));
}

#[test]
fn manager_moving_with_no_neighbour_pushes_to_the_monitor_edge() {
    let mut wm = wm_with_monitor();
    let id = wm.alloc_window_id();
    let mut w = Window::new(id, "only");
    w.geometry = Rect::new(500, 300, 200, 150);
    wm.add_window(w);
    wm.window_mut(id).unwrap().geometry = Rect::new(500, 300, 200, 150);
    wm.focus_window(id);

    assert_eq!(wm.move_window_direction(Direction::Left), None);
    assert_eq!(wm.window(id).unwrap().geometry.x, 0, "should hug the left edge");

    wm.move_window_direction(Direction::Down);
    let g = wm.window(id).unwrap().geometry;
    let mon = wm.primary_monitor().unwrap().geometry;
    assert_eq!(g.bottom(), mon.bottom(), "should hug the bottom edge");
}

#[test]
fn manager_swapping_also_reorders_the_stack_so_tiling_follows() {
    let mut wm = wm_with_monitor();
    wm.set_layout(wm.current_workspace(), "tiling");
    let a = wm.alloc_window_id();
    wm.add_window(Window::new(a, "a"));
    let b = wm.alloc_window_id();
    wm.add_window(Window::new(b, "b"));
    wm.arrange_workspace(wm.current_workspace());

    wm.focus_window(a);
    let order_before: Vec<_> = wm.stacking_order().iter().map(|w| w.id).collect();
    wm.move_window_direction(Direction::Right);
    let order_after: Vec<_> = wm.stacking_order().iter().map(|w| w.id).collect();

    assert_ne!(order_before, order_after, "stacking order must reflect the swap");
    assert_eq!(
        order_after,
        order_before.iter().rev().copied().collect::<Vec<_>>(),
        "the two windows should have traded places in the stack"
    );
}

#[test]
fn manager_pinned_windows_stay_above_newly_raised_ones() {
    let mut wm = wm_with_monitor();
    let pinned = wm.alloc_window_id();
    wm.add_window(Window::new(pinned, "pip"));
    let other = wm.alloc_window_id();
    wm.add_window(Window::new(other, "normal"));

    wm.toggle_always_on_top(pinned);
    assert!(wm.is_always_on_top(pinned));
    assert_eq!(wm.stacking_order().last().map(|w| w.id), Some(pinned));

    wm.raise_window(other);
    assert_eq!(
        wm.stacking_order().last().map(|w| w.id),
        Some(pinned),
        "pinned window must remain topmost after another is raised"
    );
}

#[test]
fn manager_a_new_window_does_not_cover_a_pinned_one() {
    let mut wm = wm_with_monitor();
    let pinned = wm.alloc_window_id();
    wm.add_window(Window::new(pinned, "pip"));
    wm.toggle_always_on_top(pinned);

    let fresh = wm.alloc_window_id();
    wm.add_window(Window::new(fresh, "just opened"));

    assert_eq!(wm.stacking_order().last().map(|w| w.id), Some(pinned));
}

#[test]
fn manager_unpinning_lets_a_window_fall_back_into_the_normal_stack() {
    let mut wm = wm_with_monitor();
    let a = wm.alloc_window_id();
    wm.add_window(Window::new(a, "a"));
    let b = wm.alloc_window_id();
    wm.add_window(Window::new(b, "b"));

    wm.toggle_always_on_top(a);
    assert_eq!(wm.stacking_order().last().map(|w| w.id), Some(a));
    wm.toggle_always_on_top(a);
    wm.raise_window(b);
    assert_eq!(wm.stacking_order().last().map(|w| w.id), Some(b));
}
