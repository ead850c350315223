use srdwm::window::{
    classify_menu_source, format_button_order, likely_draws_own_titlebar, parse_button_order, MenuSource, ResizeEdge,
    TitlebarButton, TitlebarHit, BUTTON_CLUSTER_MARGIN, BUTTON_PITCH, CORNER_MARGIN,
    DECORATED_TOP_RESIZE_MARGIN, RESIZE_MARGIN, RESIZE_OUTSET, TITLEBAR_HEIGHT,
};
use srdwm::Rect;

#[test]
fn parses_a_well_formed_order() {
    assert_eq!(parse_button_order("close,minimize,maximize"), Some([TitlebarButton::Close, TitlebarButton::Minimize, TitlebarButton::Maximize]));
    assert_eq!(parse_button_order("maximize,minimize,close"), Some([TitlebarButton::Maximize, TitlebarButton::Minimize, TitlebarButton::Close]));
}

#[test]
fn is_case_insensitive_and_trims_whitespace() {
    assert_eq!(parse_button_order(" Close, MINIMIZE ,Maximize"), Some([TitlebarButton::Close, TitlebarButton::Minimize, TitlebarButton::Maximize]));
}

#[test]
fn accepts_the_british_spelling() {
    assert_eq!(parse_button_order("close,minimise,maximise"), Some([TitlebarButton::Close, TitlebarButton::Minimize, TitlebarButton::Maximize]));
}

#[test]
fn rejects_a_missing_button() {
    assert_eq!(parse_button_order("close,minimize"), None);
}

#[test]
fn rejects_a_duplicated_button() {
    assert_eq!(parse_button_order("close,close,maximize"), None);
}

#[test]
fn format_button_order_round_trips_through_parse_button_order() {
    for order in [
        [TitlebarButton::Close, TitlebarButton::Minimize, TitlebarButton::Maximize],
        [TitlebarButton::Maximize, TitlebarButton::Minimize, TitlebarButton::Close],
    ] {
        assert_eq!(parse_button_order(&format_button_order(order)), Some(order));
    }
}

#[test]
fn format_button_order_matches_the_exact_shape_set_accepts() {
    assert_eq!(format_button_order([TitlebarButton::Close, TitlebarButton::Minimize, TitlebarButton::Maximize]), "close,minimize,maximize");
}

#[test]
fn rejects_an_unknown_token() {
    assert_eq!(parse_button_order("close,minimize,help"), None);
}

#[test]
fn likely_draws_own_titlebar_matches_both_known_namespaces_case_insensitively() {
    assert!(likely_draws_own_titlebar("org.gnome.Nautilus"));
    assert!(likely_draws_own_titlebar("ORG.GNOME.TextEditor"));
    assert!(likely_draws_own_titlebar("org.pwmt.zathura"));
    assert!(likely_draws_own_titlebar("Org.Pwmt.Zathura"));
}

#[test]
fn likely_draws_own_titlebar_does_not_misclassify_unrelated_reverse_dns_ids() {
    assert!(!likely_draws_own_titlebar("io.github.somebody.SomeApp"));
    assert!(!likely_draws_own_titlebar("org.mozilla.firefox"));
    assert!(!likely_draws_own_titlebar("firefox"));
    assert!(!likely_draws_own_titlebar(""));
}

fn frame() -> Rect {
    Rect::new(100, 100, 400, 300)
}

#[test]
fn appmenu_gtk_module_shim_is_classified_as_unity_not_gtk() {
    let (path, source) = classify_menu_source(Some("/org/appmenu/gtk/window/0".to_string()), false, None);
    assert_eq!(path.as_deref(), Some("/org/appmenu/gtk/window/0"), "the path itself is still correct - only the label was wrong");
    assert_eq!(source, MenuSource::Unity);
}

#[test]
fn real_gtk_application_export_is_still_classified_as_gtk() {
    let (path, source) = classify_menu_source(Some("/org/gtk/menus/window/1".to_string()), true, None);
    assert_eq!(path.as_deref(), Some("/org/gtk/menus/window/1"));
    assert_eq!(source, MenuSource::Gtk);
}

#[test]
fn plain_unity_object_path_with_no_gtk_atom_is_real_dbusmenu() {
    let (path, source) = classify_menu_source(None, false, Some("/com/canonical/menu/1".to_string()));
    assert_eq!(path.as_deref(), Some("/com/canonical/menu/1"));
    assert_eq!(source, MenuSource::DbusMenu);
}

#[test]
fn neither_path_present_is_none() {
    let (path, source) = classify_menu_source(None, false, None);
    assert_eq!(path, None);
    assert_eq!(source, MenuSource::Gtk);
}

#[test]
fn close_button_is_top_right_corner_of_titlebar() {
    let f = frame();
    let hit = ResizeEdge::hit_test(f, f.right() - BUTTON_CLUSTER_MARGIN as i32 - 5, f.y + 5, true, 0, RESIZE_MARGIN, false, None, false, true);
    assert_eq!(hit, Some(TitlebarHit::Close));
}

#[test]
fn maximize_is_left_of_close() {
    let f = frame();
    let hit = ResizeEdge::hit_test(f, f.right() - BUTTON_CLUSTER_MARGIN as i32 - BUTTON_PITCH as i32 - 5, f.y + 5, true, 0, RESIZE_MARGIN, false, None, false, true);
    assert_eq!(hit, Some(TitlebarHit::Maximize));
}

#[test]
fn a_dialog_only_ever_recognizes_close_not_minimize_or_maximize() {
    let f = frame();
    let maximize_spot = f.right() - BUTTON_CLUSTER_MARGIN as i32 - BUTTON_PITCH as i32 - 5;
    let hit = ResizeEdge::hit_test(f, maximize_spot, f.y + 5, true, 0, RESIZE_MARGIN, false, None, true, true);
    assert_ne!(hit, Some(TitlebarHit::Maximize), "a dialog must not have a Maximize hit zone at all");
    assert_ne!(hit, Some(TitlebarHit::Minimize), "a dialog must not have a Minimize hit zone at all");
    let close_hit = ResizeEdge::hit_test(f, f.right() - BUTTON_CLUSTER_MARGIN as i32 - 5, f.y + 5, true, 0, RESIZE_MARGIN, false, None, true, true);
    assert_eq!(close_hit, Some(TitlebarHit::Close));
}

#[test]
fn a_dialog_recognizes_close_even_with_a_button_order_override_that_does_not_start_with_it() {
    let f = frame();
    let order = [TitlebarButton::Maximize, TitlebarButton::Minimize, TitlebarButton::Close];
    let hit = ResizeEdge::hit_test(f, f.right() - BUTTON_CLUSTER_MARGIN as i32 - 5, f.y + 5, true, 0, RESIZE_MARGIN, false, Some(order), true, true);
    assert_eq!(hit, Some(TitlebarHit::Close));
}

#[test]
fn an_explicit_button_order_moves_the_hit_zones_to_match() {
    let f = frame();
    let order = [TitlebarButton::Close, TitlebarButton::Minimize, TitlebarButton::Maximize];
    let hit = ResizeEdge::hit_test(f, f.right() - BUTTON_CLUSTER_MARGIN as i32 - BUTTON_PITCH as i32 - 5, f.y + 5, true, 0, RESIZE_MARGIN, false, Some(order), false, true);
    assert_eq!(hit, Some(TitlebarHit::Minimize));
}

#[test]
fn a_button_order_override_applies_the_same_way_on_either_side() {
    let f = frame();
    let order = [TitlebarButton::Maximize, TitlebarButton::Minimize, TitlebarButton::Close];
    let left_hit = ResizeEdge::hit_test(f, f.x + BUTTON_CLUSTER_MARGIN as i32 + 5, f.y + 5, true, 0, RESIZE_MARGIN, true, Some(order), false, true);
    let right_hit = ResizeEdge::hit_test(f, f.right() - BUTTON_CLUSTER_MARGIN as i32 - 5, f.y + 5, true, 0, RESIZE_MARGIN, false, Some(order), false, true);
    assert_eq!(left_hit, Some(TitlebarHit::Maximize));
    assert_eq!(right_hit, Some(TitlebarHit::Maximize));
}

#[test]
fn middle_of_titlebar_is_drag() {
    let f = frame();
    let (cx, _) = f.center();
    let hit = ResizeEdge::hit_test(f, cx, f.y + DECORATED_TOP_RESIZE_MARGIN + 5, true, 0, RESIZE_MARGIN, false, None, false, true);
    assert_eq!(hit, Some(TitlebarHit::Drag));
}

#[test]
fn bottom_right_corner_is_resize() {
    let f = frame();
    let hit = ResizeEdge::hit_test(f, f.right() - 1, f.bottom() - 1, true, 0, RESIZE_MARGIN, false, None, false, true);
    assert_eq!(hit, Some(TitlebarHit::Resize(ResizeEdge::BottomRight)));
}

#[test]
fn a_non_resizable_window_has_no_maximize_button_to_click() {
    let f = Rect::new(0, 0, 400, 300);
    let slot = |i: i32| f.right() - BUTTON_CLUSTER_MARGIN as i32 - BUTTON_PITCH as i32 * i - 1;
    let hit = |x: i32, show_max: bool| ResizeEdge::hit_test(f, x, f.y + TITLEBAR_HEIGHT as i32 / 2, true, 0, RESIZE_MARGIN, false, None, false, show_max);

    assert_eq!(hit(slot(1), true), Some(TitlebarHit::Maximize), "resizable: slot 1 is Maximize");
    assert_eq!(hit(slot(1), false), Some(TitlebarHit::Minimize), "non-resizable: Minimize closes the gap");
    assert_eq!(hit(slot(0), false), Some(TitlebarHit::Close), "Close stays put");
}

#[test]
fn a_non_resizable_window_still_has_exactly_two_buttons() {
    let f = Rect::new(0, 0, 400, 300);
    let slot = |i: i32| f.right() - BUTTON_CLUSTER_MARGIN as i32 - BUTTON_PITCH as i32 * i - 1;
    let hit = |x: i32| ResizeEdge::hit_test(f, x, f.y + TITLEBAR_HEIGHT as i32 / 2, true, 0, RESIZE_MARGIN, false, None, false, false);
    assert_eq!(hit(slot(2)), Some(TitlebarHit::Drag), "no third button exists any more");
}

#[test]
fn a_dialog_is_close_only_regardless_of_the_dynamic_button_mode() {
    let f = Rect::new(0, 0, 400, 300);
    let slot = |i: i32| f.right() - BUTTON_CLUSTER_MARGIN as i32 - BUTTON_PITCH as i32 * i - 1;
    for show_max in [true, false] {
        let hit = |x: i32| ResizeEdge::hit_test(f, x, f.y + TITLEBAR_HEIGHT as i32 / 2, true, 0, RESIZE_MARGIN, false, None, true, show_max);
        assert_eq!(hit(slot(0)), Some(TitlebarHit::Close), "show_maximize={show_max}");
        assert_eq!(hit(slot(1)), Some(TitlebarHit::Drag), "a dialog has no second button, show_maximize={show_max}");
    }
}

#[test]
fn undecorated_window_has_no_titlebar_band() {
    let f = frame();
    let (cx, _) = f.center();
    let hit = ResizeEdge::hit_test(f, cx, f.y + 20, false, 0, RESIZE_MARGIN, false, None, false, true);
    assert_eq!(hit, None);
}

#[test]
fn undecorated_window_still_resizes_from_every_edge_including_top() {
    let f = frame();
    let (cx, _) = f.center();
    let hit = ResizeEdge::hit_test(f, cx, f.y + 1, false, 0, RESIZE_MARGIN, false, None, false, true);
    assert_eq!(hit, Some(TitlebarHit::Resize(ResizeEdge::Top)));
}

#[test]
fn undecorated_top_resize_band_is_much_narrower_than_decorated() {
    let f = frame();
    let (cx, _) = f.center();
    assert_eq!(ResizeEdge::hit_test(f, cx, f.y + 5, false, 0, RESIZE_MARGIN, false, None, false, true), None, "5px in: past the narrow undecorated band, must reach the client");
    assert_eq!(
        ResizeEdge::hit_test(f, cx, f.y + DECORATED_TOP_RESIZE_MARGIN + 5, true, 0, RESIZE_MARGIN, false, None, false, true),
        Some(TitlebarHit::Drag),
        "decorated: past its own (wider) top resize margin, still plain drag"
    );
}

#[test]
fn undecorated_corner_resize_is_not_widened_either() {
    let f = frame();
    let hit = ResizeEdge::hit_test(f, f.right() - 10, f.y + 10, false, 0, RESIZE_MARGIN, false, None, false, true);
    assert_eq!(hit, None, "past the narrow undecorated corner margin on both axes, must reach the client");
}

#[test]
fn undecorated_bottom_right_corner_also_uses_the_narrow_margin() {
    let f = frame();
    let hit = ResizeEdge::hit_test(f, f.right() - 10, f.bottom() - 10, false, 0, RESIZE_MARGIN, false, None, false, true);
    assert_eq!(hit, None, "past the narrow undecorated corner margin on both axes, must reach the client");
}

#[test]
fn undecorated_window_resizes_from_right_and_bottom_edges_within_the_narrow_margin() {
    let f = frame();
    let (_, cy) = f.center();
    let (cx, _) = f.center();
    assert_eq!(ResizeEdge::hit_test(f, f.right() - 1, cy, false, 0, RESIZE_MARGIN, false, None, false, true), Some(TitlebarHit::Resize(ResizeEdge::Right)));
    assert_eq!(ResizeEdge::hit_test(f, cx, f.bottom() - 1, false, 0, RESIZE_MARGIN, false, None, false, true), Some(TitlebarHit::Resize(ResizeEdge::Bottom)));
}

#[test]
fn outside_frame_is_none() {
    let f = frame();
    assert_eq!(ResizeEdge::hit_test(f, 0, 0, true, 0, RESIZE_MARGIN, false, None, false, true), None);
}

#[test]
fn border_pixels_are_hoverable_not_a_dead_zone() {
    let f = frame();
    let (_, cy) = f.center();
    let border_width = (RESIZE_OUTSET + 3) as u32;
    let x = f.x - 1;
    assert_eq!(
        ResizeEdge::hit_test(f, x, cy, true, border_width, RESIZE_MARGIN, false, None, false, true),
        Some(TitlebarHit::Resize(ResizeEdge::Left)),
        "one pixel into the actual drawn border must register as the left edge"
    );
    assert_eq!(
        ResizeEdge::hit_test(f, f.x - border_width as i32 + 1, cy, true, border_width, RESIZE_MARGIN, false, None, false, true),
        Some(TitlebarHit::Resize(ResizeEdge::Left)),
        "the far side of a wide border is still the window's edge"
    );
    assert_eq!(ResizeEdge::hit_test(f, f.x - border_width as i32 - 1, cy, true, border_width, RESIZE_MARGIN, false, None, false, true), None);
}

#[test]
fn a_borderless_window_can_still_be_grabbed_from_outside_its_edge() {
    let f = frame();
    let (_, cy) = f.center();
    for dx in 1..=RESIZE_OUTSET {
        assert_eq!(
            ResizeEdge::hit_test(f, f.x - dx, cy, false, 0, RESIZE_MARGIN, false, None, false, true),
            Some(TitlebarHit::Resize(ResizeEdge::Left)),
            "{dx}px outside a borderless window's left edge must still resize"
        );
    }
    assert_eq!(
        ResizeEdge::hit_test(f, f.x - RESIZE_OUTSET - 1, cy, false, 0, RESIZE_MARGIN, false, None, false, true),
        None,
        "one pixel past the band is not the window"
    );
}

#[test]
fn the_outward_band_reaches_every_edge_not_just_the_left() {
    let f = frame();
    let (cx, cy) = f.center();
    let probe = |x, y| ResizeEdge::hit_test(f, x, y, false, 0, RESIZE_MARGIN, false, None, false, true);
    assert_eq!(probe(f.right() + RESIZE_OUTSET - 1, cy), Some(TitlebarHit::Resize(ResizeEdge::Right)));
    assert_eq!(probe(cx, f.y - RESIZE_OUTSET + 1), Some(TitlebarHit::Resize(ResizeEdge::Top)));
    assert_eq!(probe(cx, f.bottom() + RESIZE_OUTSET - 1), Some(TitlebarHit::Resize(ResizeEdge::Bottom)));
}

#[test]
fn corner_resize_reaches_further_than_a_plain_edge_would() {
    let f = frame();
    let corner_reach = CORNER_MARGIN * RESIZE_MARGIN;
    assert!(corner_reach > RESIZE_MARGIN, "the whole point of this test is that corner reach exceeds a plain edge's");
    let x = f.x + corner_reach - 1;
    let y = f.bottom() - corner_reach + 1;
    assert_eq!(ResizeEdge::hit_test(f, x, y, true, 0, RESIZE_MARGIN, false, None, false, true), Some(TitlebarHit::Resize(ResizeEdge::BottomLeft)));
}

#[test]
fn just_past_the_corner_zone_falls_back_to_a_single_edge() {
    let f = frame();
    let corner_reach = CORNER_MARGIN * RESIZE_MARGIN;
    let x = f.x + corner_reach + 5;
    let y = f.bottom() - 1;
    assert_eq!(ResizeEdge::hit_test(f, x, y, true, 0, RESIZE_MARGIN, false, None, false, true), Some(TitlebarHit::Resize(ResizeEdge::Bottom)));
}

#[test]
fn decorated_window_top_left_corner_of_titlebar_resizes_not_drags() {
    let f = frame();
    let corner_reach = CORNER_MARGIN * RESIZE_MARGIN;
    let hit = ResizeEdge::hit_test(f, f.x + corner_reach - 1, f.y + corner_reach - 1, true, 0, RESIZE_MARGIN, false, None, false, true);
    assert_eq!(hit, Some(TitlebarHit::Resize(ResizeEdge::TopLeft)));
}

#[test]
fn decorated_window_top_right_corner_still_closes_not_resizes() {
    let f = frame();
    let hit = ResizeEdge::hit_test(f, f.right() - BUTTON_CLUSTER_MARGIN as i32 - 1, f.y + 1, true, 0, RESIZE_MARGIN, false, None, false, true);
    assert_eq!(hit, Some(TitlebarHit::Close));
}

#[test]
fn button_side_corner_still_resizes_from_its_own_dead_strip() {
    let f = frame();
    let hit = ResizeEdge::hit_test(f, f.right() - 1, f.y + 1, true, 0, RESIZE_MARGIN, false, None, false, true);
    assert_eq!(hit, Some(TitlebarHit::Resize(ResizeEdge::TopRight)));
}

#[test]
fn button_side_corner_below_its_own_resize_row_still_drags() {
    let f = frame();
    let hit = ResizeEdge::hit_test(f, f.right() - 1, f.y + DECORATED_TOP_RESIZE_MARGIN + 5, true, 0, RESIZE_MARGIN, false, None, false, true);
    assert_eq!(hit, Some(TitlebarHit::Drag));
}

#[test]
fn button_side_corner_still_resizes_from_its_own_dead_strip_when_buttons_are_left() {
    let f = frame();
    let hit = ResizeEdge::hit_test(f, f.x + 1, f.y + 1, true, 0, RESIZE_MARGIN, true, None, false, true);
    assert_eq!(hit, Some(TitlebarHit::Resize(ResizeEdge::TopLeft)));
}

#[test]
fn decorated_window_very_top_edge_of_titlebar_resizes_not_drags() {
    let f = frame();
    let x = f.x + f.width as i32 / 2;
    let hit = ResizeEdge::hit_test(f, x, f.y + DECORATED_TOP_RESIZE_MARGIN - 1, true, 0, RESIZE_MARGIN, false, None, false, true);
    assert_eq!(hit, Some(TitlebarHit::Resize(ResizeEdge::Top)));
}

#[test]
fn decorated_window_titlebar_below_the_top_margin_still_drags() {
    let f = frame();
    let x = f.x + f.width as i32 / 2;
    let hit = ResizeEdge::hit_test(f, x, f.y + DECORATED_TOP_RESIZE_MARGIN + 5, true, 0, RESIZE_MARGIN, false, None, false, true);
    assert_eq!(hit, Some(TitlebarHit::Drag));
}

#[test]
fn decorated_window_top_edge_over_a_button_still_hits_the_button() {
    let f = frame();
    let hit = ResizeEdge::hit_test(f, f.right() - 15, f.y + 1, true, 0, RESIZE_MARGIN, false, None, false, true);
    assert_eq!(hit, Some(TitlebarHit::Close));
}

#[test]
fn resize_right_edge_grows_width_only() {
    let r = Rect::new(0, 0, 200, 100);
    let out = ResizeEdge::Right.apply_delta(r, 50, 999, 50, 50);
    assert_eq!(out, Rect::new(0, 0, 250, 100));
}

#[test]
fn resize_left_edge_moves_x_and_shrinks_width() {
    let r = Rect::new(100, 0, 200, 100);
    let out = ResizeEdge::Left.apply_delta(r, 30, 0, 50, 50);
    assert_eq!(out, Rect::new(130, 0, 170, 100));
}

#[test]
fn resize_respects_minimum_size() {
    let r = Rect::new(0, 0, 100, 100);
    let out = ResizeEdge::Right.apply_delta(r, -500, 0, 50, 50);
    assert_eq!(out.width, 50);
}

#[test]
fn aspect_ratio_derives_height_from_width_on_a_horizontal_edge() {
    let r = Rect::new(0, 0, 900, 300);
    let out = ResizeEdge::Right.apply_aspect_ratio(r, (9, 16), 1, 1);
    assert_eq!(out, Rect::new(0, 0, 900, 1600));
}

#[test]
fn aspect_ratio_derives_width_from_height_on_a_pure_vertical_edge() {
    let r = Rect::new(0, 0, 300, 1600);
    let out = ResizeEdge::Bottom.apply_aspect_ratio(r, (9, 16), 1, 1);
    assert_eq!(out, Rect::new(0, 0, 900, 1600));
}

#[test]
fn aspect_ratio_on_top_left_keeps_the_bottom_right_corner_fixed() {
    let delta_applied = Rect::new(-100, -300, 500, 1200);
    let out = ResizeEdge::TopLeft.apply_aspect_ratio(delta_applied, (9, 16), 1, 1);
    assert_eq!(out.height, 888);
    assert_eq!(out.y + out.height as i32, delta_applied.bottom());
    assert_eq!(delta_applied.bottom(), 900);
    assert_eq!(out.bottom(), 900);
}

#[test]
fn aspect_ratio_never_shrinks_below_the_given_minimum() {
    let r = Rect::new(0, 0, 10, 10);
    let out = ResizeEdge::Right.apply_aspect_ratio(r, (9, 16), 50, 50);
    assert!(out.height >= 50);
}

#[test]
fn a_zero_component_ratio_is_a_no_op_not_a_division_by_zero() {
    let r = Rect::new(0, 0, 300, 900);
    assert_eq!(ResizeEdge::Right.apply_aspect_ratio(r, (0, 16), 1, 1), r);
    assert_eq!(ResizeEdge::Right.apply_aspect_ratio(r, (9, 0), 1, 1), r);
}
