use srdwm::manager::WindowManager;
use srdwm::{ColorFilter, LockConfig, PlacementConfig, ThemeConfig, TilingConfig};

#[test]
fn switches_are_set_one_by_one() {
    let mut wm = WindowManager::new();
    for on in [true, false] {
        wm.set_auto_back_and_forth(on);
        assert_eq!(wm.auto_back_and_forth, on);
        wm.set_per_monitor_workspaces(on);
        assert_eq!(wm.per_monitor_workspaces, on);
        wm.set_animations_enabled(on);
        assert_eq!(wm.animations_enabled, on);
        wm.set_shadows_enabled(on);
        assert_eq!(wm.shadows_enabled, on);
        wm.set_close_focus_follows_workspace(on);
        assert_eq!(wm.close_focus_follows_workspace, on);
        wm.set_rounded_corners_enabled(Some(on));
        assert_eq!(wm.rounded_corners_enabled, Some(on));
        wm.set_gpu_enabled(on);
        assert_eq!(wm.gpu_enabled, on);
        wm.set_multi_cursor_enabled(on);
        assert_eq!(wm.multi_cursor_enabled, on);
        wm.set_phone_mode(on);
        assert_eq!(wm.phone_mode, on);
        wm.set_desktop_icons_enabled(on);
        assert_eq!(wm.desktop_icons_enabled, on);
        wm.set_desktop_icons_all_monitors(on);
        assert_eq!(wm.desktop_icons_all_monitors, on);
        wm.set_desktop_icon_single_click(on);
        assert_eq!(wm.desktop_icon_single_click, on);
        wm.set_focus_follows_mouse(on);
        assert_eq!(wm.focus_follows_mouse, on);
        wm.set_auto_raise(on);
        assert_eq!(wm.auto_raise, on);
        wm.set_maximize_covers_dock(on);
        assert_eq!(wm.maximize_covers_dock, on);
    }
}

#[test]
fn numbers_and_names_are_set() {
    let mut wm = WindowManager::new();
    wm.set_animation_duration_ms(120);
    assert_eq!(wm.animation_duration_ms, 120);
    wm.set_resize_margin(-3);
    assert_eq!(wm.resize_margin, -3);
    wm.set_reserve(1, 2, 3, 4);
    assert_eq!((wm.reserve_top, wm.reserve_bottom, wm.reserve_left, wm.reserve_right), (1, 2, 3, 4));
    wm.set_primary_layout("tiling");
    assert_eq!(wm.primary_layout, "tiling");
    wm.set_secondary_layout("floating");
    assert_eq!(wm.secondary_layout, "floating");
    wm.set_file_manager("files");
    assert_eq!(wm.file_manager, "files");
    wm.set_terminal("term");
    assert_eq!(wm.terminal, "term");
    wm.set_color_filter(ColorFilter::NightLight);
    assert_eq!(wm.color_filter, ColorFilter::NightLight);
    wm.set_keybindings(vec![("Mod4+q".to_string(), "close".to_string())]);
    assert_eq!(wm.keybindings, vec![("Mod4+q".to_string(), "close".to_string())]);
}

#[test]
fn whole_configurations_are_set() {
    let mut wm = WindowManager::new();
    let tiling = TilingConfig { gap_outer: 3, ..Default::default() };
    wm.set_tiling(tiling);
    assert_eq!(wm.tiling, tiling);
    let placement = PlacementConfig { max_grid: 2, ..Default::default() };
    wm.set_placement(placement);
    assert_eq!(wm.placement, placement);
    let theme = ThemeConfig { default_border_width: 9, ..Default::default() };
    wm.set_theme(theme);
    assert_eq!(wm.theme.default_border_width, 9);
    wm.set_lock(LockConfig { blur_radius: 7, ..Default::default() });
    assert_eq!(wm.lock.blur_radius, 7);
}
