//! The values that are in force before any script has run.
use super::table::{put, values_of};
use super::value::{ConfigValue, ConfigView};
use crate::ieee::Float64;
use crate::table::TextTable;
use crate::text::views;
use vstd::prelude::*;

verus! {

// The encodings of the numbers among the defaults.
/// 0
pub const N0: u64 = 0x0000_0000_0000_0000;
/// 0.35
pub const SEVEN_TWENTIETHS: u64 = 0x3fd6_6666_6666_6666;
/// 0.5
pub const HALF: u64 = 0x3fe0_0000_0000_0000;
/// 0.6
pub const THREE_FIFTHS: u64 = 0x3fe3_3333_3333_3333;
/// 2
pub const N2: u64 = 0x4000_0000_0000_0000;
/// 6
pub const N6: u64 = 0x4018_0000_0000_0000;
/// 8
pub const N8: u64 = 0x4020_0000_0000_0000;
/// 10
pub const N10: u64 = 0x4024_0000_0000_0000;
/// 16
pub const N16: u64 = 0x4030_0000_0000_0000;
/// 20
pub const N20: u64 = 0x4034_0000_0000_0000;
/// 24
pub const N24: u64 = 0x4038_0000_0000_0000;
/// 30
pub const N30: u64 = 0x403e_0000_0000_0000;
/// 60
pub const N60: u64 = 0x404e_0000_0000_0000;
/// 100
pub const N100: u64 = 0x4059_0000_0000_0000;
/// 200
pub const N200: u64 = 0x4069_0000_0000_0000;
/// 1000
pub const N1000: u64 = 0x408f_4000_0000_0000;

fn put_text(table: &mut TextTable<ConfigValue>, key: &str, value: &str)
    requires
        old(table).wf(),
    ensures
        final(table).wf(),
        values_of(final(table)@) == values_of(old(table)@).insert(key@, ConfigView::Text(value@)),
{
    put(table, key, ConfigValue::String(value.to_string()));
}

fn put_number(table: &mut TextTable<ConfigValue>, key: &str, bits: u64)
    requires
        old(table).wf(),
    ensures
        final(table).wf(),
        values_of(final(table)@) == values_of(old(table)@).insert(key@, number(bits)),
{
    put(table, key, ConfigValue::Number(Float64 { bits }));
}

fn put_bool(table: &mut TextTable<ConfigValue>, key: &str, value: bool)
    requires
        old(table).wf(),
    ensures
        final(table).wf(),
        values_of(final(table)@) == values_of(old(table)@).insert(key@, ConfigView::Bool(value)),
{
    put(table, key, ConfigValue::Bool(value));
}

/// The number with an encoding.
pub open spec fn number(bits: u64) -> ConfigView {
    ConfigView::Number(Float64 { bits })
}

/// The names of the first workspaces.
pub open spec fn workspace_names() -> Seq<Seq<char>> {
    seq!["1"@, "2"@, "3"@, "4"@, "5"@, "6"@, "7"@, "8"@, "9"@, "0"@]
}

fn first_names() -> (r: Vec<String>)
    ensures
        views(r@) == workspace_names(),
{
    let r: Vec<String> = vec![
        "1".to_string(),
        "2".to_string(),
        "3".to_string(),
        "4".to_string(),
        "5".to_string(),
        "6".to_string(),
        "7".to_string(),
        "8".to_string(),
        "9".to_string(),
        "0".to_string(),
    ];
    assert(views(r@) =~= workspace_names());
    r
}

/// Adds the defaults of what holds everywhere.
pub open spec fn with_general_first(values: Map<Seq<char>, ConfigView>) -> Map<Seq<char>, ConfigView> {
    values
        .insert("general.default_layout"@, ConfigView::Text("dynamic"@))
        .insert("general.config_reload_on_write"@, ConfigView::Bool(true))
        .insert("general.maximize_covers_dock"@, ConfigView::Bool(true))
        .insert("general.smart_placement"@, ConfigView::Bool(true))
        .insert("general.window_gap"@, number(N8))
        .insert("general.animations"@, ConfigView::Bool(true))
        .insert("general.animation_duration"@, number(N200))
        .insert("general.shadows"@, ConfigView::Bool(true))
        .insert("general.resize_margin"@, number(N6))
        .insert("general.gpu"@, ConfigView::Bool(false))
        .insert("general.phone_mode"@, ConfigView::Bool(false))
        .insert("general.multi_cursor"@, ConfigView::Bool(false))
        .insert("general.desktop_icons"@, ConfigView::Bool(true))
        .insert("general.desktop_icons_all_monitors"@, ConfigView::Bool(true))
}

fn put_general_first(table: &mut TextTable<ConfigValue>)
    requires
        old(table).wf(),
    ensures
        final(table).wf(),
        values_of(final(table)@) == with_general_first(values_of(old(table)@)),
{
    put_text(table, "general.default_layout", "dynamic");
    put_bool(table, "general.config_reload_on_write", true);
    put_bool(table, "general.maximize_covers_dock", true);
    put_bool(table, "general.smart_placement", true);
    put_number(table, "general.window_gap", N8);
    put_bool(table, "general.animations", true);
    put_number(table, "general.animation_duration", N200);
    put_bool(table, "general.shadows", true);
    put_number(table, "general.resize_margin", N6);
    put_bool(table, "general.gpu", false);
    put_bool(table, "general.phone_mode", false);
    put_bool(table, "general.multi_cursor", false);
    put_bool(table, "general.desktop_icons", true);
    put_bool(table, "general.desktop_icons_all_monitors", true);
}

/// Adds the defaults of what holds everywhere.
pub open spec fn with_general_second(values: Map<Seq<char>, ConfigView>) -> Map<Seq<char>, ConfigView> {
    values
        .insert("general.reserve_top"@, number(N0))
        .insert("general.reserve_bottom"@, number(N0))
        .insert("general.reserve_left"@, number(N0))
        .insert("general.reserve_right"@, number(N0))
        .insert("general.file_manager"@, ConfigView::Text(""@))
        .insert("general.desktop_icon_single_click"@, ConfigView::Bool(false))
        .insert("general.terminal"@, ConfigView::Text(""@))
        .insert("general.focus_follows_mouse"@, ConfigView::Bool(false))
        .insert("general.auto_raise"@, ConfigView::Bool(false))
}

fn put_general_second(table: &mut TextTable<ConfigValue>)
    requires
        old(table).wf(),
    ensures
        final(table).wf(),
        values_of(final(table)@) == with_general_second(values_of(old(table)@)),
{
    put_number(table, "general.reserve_top", N0);
    put_number(table, "general.reserve_bottom", N0);
    put_number(table, "general.reserve_left", N0);
    put_number(table, "general.reserve_right", N0);
    put_text(table, "general.file_manager", "");
    put_bool(table, "general.desktop_icon_single_click", false);
    put_text(table, "general.terminal", "");
    put_bool(table, "general.focus_follows_mouse", false);
    put_bool(table, "general.auto_raise", false);
}

/// Adds the defaults of the monitors.
pub open spec fn with_monitor(values: Map<Seq<char>, ConfigView>) -> Map<Seq<char>, ConfigView> {
    values
        .insert("monitor.primary_layout"@, ConfigView::Text("dynamic"@))
        .insert("monitor.secondary_layout"@, ConfigView::Text("tiling"@))
        .insert("monitor.auto_detect"@, ConfigView::Bool(true))
}

fn put_monitor(table: &mut TextTable<ConfigValue>)
    requires
        old(table).wf(),
    ensures
        final(table).wf(),
        values_of(final(table)@) == with_monitor(values_of(old(table)@)),
{
    put_text(table, "monitor.primary_layout", "dynamic");
    put_text(table, "monitor.secondary_layout", "tiling");
    put_bool(table, "monitor.auto_detect", true);
}

/// Adds the defaults of the workspaces.
pub open spec fn with_workspace(values: Map<Seq<char>, ConfigView>) -> Map<Seq<char>, ConfigView> {
    values
        .insert("workspace.count"@, number(N10))
        .insert("workspace.names"@, ConfigView::List(workspace_names()))
        .insert("workspace.auto_back_and_forth"@, ConfigView::Bool(false))
        .insert("workspace.per_monitor"@, ConfigView::Bool(false))
}

fn put_workspace(table: &mut TextTable<ConfigValue>)
    requires
        old(table).wf(),
    ensures
        final(table).wf(),
        values_of(final(table)@) == with_workspace(values_of(old(table)@)),
{
    put_number(table, "workspace.count", N10);
    put(table, "workspace.names", ConfigValue::List(first_names()));
    put_bool(table, "workspace.auto_back_and_forth", false);
    put_bool(table, "workspace.per_monitor", false);
}

/// Adds the defaults of the pace of drawing.
pub open spec fn with_performance(values: Map<Seq<char>, ConfigView>) -> Map<Seq<char>, ConfigView> {
    values
        .insert("performance.vsync"@, ConfigView::Bool(true))
        .insert("performance.max_fps"@, number(N60))
        .insert("performance.window_cache_size"@, number(N100))
        .insert("performance.event_queue_size"@, number(N1000))
        .insert("performance.layout_timeout"@, number(N16))
        .insert("performance.enable_caching"@, ConfigView::Bool(true))
}

fn put_performance(table: &mut TextTable<ConfigValue>)
    requires
        old(table).wf(),
    ensures
        final(table).wf(),
        values_of(final(table)@) == with_performance(values_of(old(table)@)),
{
    put_bool(table, "performance.vsync", true);
    put_number(table, "performance.max_fps", N60);
    put_number(table, "performance.window_cache_size", N100);
    put_number(table, "performance.event_queue_size", N1000);
    put_number(table, "performance.layout_timeout", N16);
    put_bool(table, "performance.enable_caching", true);
}

/// Adds the defaults of what is logged and shown.
pub open spec fn with_debug(values: Map<Seq<char>, ConfigView>) -> Map<Seq<char>, ConfigView> {
    values
        .insert("debug.logging"@, ConfigView::Bool(true))
        .insert("debug.log_level"@, ConfigView::Text("info"@))
        .insert("debug.profile"@, ConfigView::Bool(false))
        .insert("debug.trace_events"@, ConfigView::Bool(false))
        .insert("debug.show_layout_bounds"@, ConfigView::Bool(false))
        .insert("debug.show_window_geometry"@, ConfigView::Bool(false))
}

fn put_debug(table: &mut TextTable<ConfigValue>)
    requires
        old(table).wf(),
    ensures
        final(table).wf(),
        values_of(final(table)@) == with_debug(values_of(old(table)@)),
{
    put_bool(table, "debug.logging", true);
    put_text(table, "debug.log_level", "info");
    put_bool(table, "debug.profile", false);
    put_bool(table, "debug.trace_events", false);
    put_bool(table, "debug.show_layout_bounds", false);
    put_bool(table, "debug.show_window_geometry", false);
}

/// Adds the defaults of the layouts.
pub open spec fn with_layout_first(values: Map<Seq<char>, ConfigView>) -> Map<Seq<char>, ConfigView> {
    values
        .insert("layout.tiling.split_ratio"@, number(HALF))
        .insert("layout.tiling.master_ratio"@, number(THREE_FIFTHS))
        .insert("layout.tiling.auto_swap"@, ConfigView::Bool(true))
        .insert("layout.tiling.gaps.inner"@, number(N8))
        .insert("layout.tiling.gaps.outer"@, number(N16))
        .insert("layout.tiling.behavior.new_window_master"@, ConfigView::Bool(false))
        .insert("layout.tiling.behavior.auto_balance"@, ConfigView::Bool(true))
        .insert("layout.tiling.behavior.preserve_ratio"@, ConfigView::Bool(true))
        .insert("layout.dynamic.snap_threshold"@, number(N20))
        .insert("layout.dynamic.grid_size"@, number(N6))
        .insert("layout.dynamic.cascade_offset"@, number(N30))
        .insert("layout.dynamic.smart_placement"@, ConfigView::Bool(true))
        .insert("layout.dynamic.gaps.inner"@, number(N8))
        .insert("layout.dynamic.gaps.outer"@, number(N16))
}

fn put_layout_first(table: &mut TextTable<ConfigValue>)
    requires
        old(table).wf(),
    ensures
        final(table).wf(),
        values_of(final(table)@) == with_layout_first(values_of(old(table)@)),
{
    put_number(table, "layout.tiling.split_ratio", HALF);
    put_number(table, "layout.tiling.master_ratio", THREE_FIFTHS);
    put_bool(table, "layout.tiling.auto_swap", true);
    put_number(table, "layout.tiling.gaps.inner", N8);
    put_number(table, "layout.tiling.gaps.outer", N16);
    put_bool(table, "layout.tiling.behavior.new_window_master", false);
    put_bool(table, "layout.tiling.behavior.auto_balance", true);
    put_bool(table, "layout.tiling.behavior.preserve_ratio", true);
    put_number(table, "layout.dynamic.snap_threshold", N20);
    put_number(table, "layout.dynamic.grid_size", N6);
    put_number(table, "layout.dynamic.cascade_offset", N30);
    put_bool(table, "layout.dynamic.smart_placement", true);
    put_number(table, "layout.dynamic.gaps.inner", N8);
    put_number(table, "layout.dynamic.gaps.outer", N16);
}

/// Adds the defaults of the layouts.
pub open spec fn with_layout_second(values: Map<Seq<char>, ConfigView>) -> Map<Seq<char>, ConfigView> {
    values
        .insert("layout.dynamic.behavior.remember_positions"@, ConfigView::Bool(true))
        .insert("layout.dynamic.behavior.auto_arrange"@, ConfigView::Bool(true))
        .insert("layout.dynamic.behavior.overlap_prevention"@, ConfigView::Bool(true))
        .insert("layout.floating.default_position"@, ConfigView::Text("center"@))
        .insert("layout.floating.remember_position"@, ConfigView::Bool(true))
        .insert("layout.floating.always_on_top"@, ConfigView::Bool(false))
        .insert("layout.floating.gaps.inner"@, number(N0))
        .insert("layout.floating.gaps.outer"@, number(N16))
        .insert("layout.floating.behavior.allow_resize"@, ConfigView::Bool(true))
        .insert("layout.floating.behavior.allow_move"@, ConfigView::Bool(true))
        .insert("layout.floating.behavior.snap_to_edges"@, ConfigView::Bool(true))
}

fn put_layout_second(table: &mut TextTable<ConfigValue>)
    requires
        old(table).wf(),
    ensures
        final(table).wf(),
        values_of(final(table)@) == with_layout_second(values_of(old(table)@)),
{
    put_bool(table, "layout.dynamic.behavior.remember_positions", true);
    put_bool(table, "layout.dynamic.behavior.auto_arrange", true);
    put_bool(table, "layout.dynamic.behavior.overlap_prevention", true);
    put_text(table, "layout.floating.default_position", "center");
    put_bool(table, "layout.floating.remember_position", true);
    put_bool(table, "layout.floating.always_on_top", false);
    put_number(table, "layout.floating.gaps.inner", N0);
    put_number(table, "layout.floating.gaps.outer", N16);
    put_bool(table, "layout.floating.behavior.allow_resize", true);
    put_bool(table, "layout.floating.behavior.allow_move", true);
    put_bool(table, "layout.floating.behavior.snap_to_edges", true);
}

/// Adds the defaults of the look.
pub open spec fn with_theme_first(values: Map<Seq<char>, ConfigView>) -> Map<Seq<char>, ConfigView> {
    values
        .insert("theme.colors.background"@, ConfigView::Text("#2e3440"@))
        .insert("theme.colors.foreground"@, ConfigView::Text("#eceff4"@))
        .insert("theme.colors.primary"@, ConfigView::Text("#88c0d0"@))
        .insert("theme.colors.secondary"@, ConfigView::Text("#81a1c1"@))
        .insert("theme.colors.accent"@, ConfigView::Text("#5e81ac"@))
        .insert("theme.colors.error"@, ConfigView::Text("#bf616a"@))
        .insert("theme.colors.warning"@, ConfigView::Text("#ebcb8b"@))
        .insert("theme.colors.success"@, ConfigView::Text("#a3be8c"@))
        .insert("theme.decorations.border.width"@, number(N2))
        .insert("theme.decorations.border.radius"@, number(N6))
        .insert("theme.decorations.border.active_color"@, ConfigView::Text("#88c0d0"@))
        .insert("theme.decorations.border.inactive_color"@, ConfigView::Text("#2e3440"@))
        .insert("theme.decorations.border.inactive_dim"@, number(SEVEN_TWENTIETHS))
        .insert("theme.decorations.border.focused_style"@, ConfigView::Text("solid"@))
}

fn put_theme_first(table: &mut TextTable<ConfigValue>)
    requires
        old(table).wf(),
    ensures
        final(table).wf(),
        values_of(final(table)@) == with_theme_first(values_of(old(table)@)),
{
    put_text(table, "theme.colors.background", "#2e3440");
    put_text(table, "theme.colors.foreground", "#eceff4");
    put_text(table, "theme.colors.primary", "#88c0d0");
    put_text(table, "theme.colors.secondary", "#81a1c1");
    put_text(table, "theme.colors.accent", "#5e81ac");
    put_text(table, "theme.colors.error", "#bf616a");
    put_text(table, "theme.colors.warning", "#ebcb8b");
    put_text(table, "theme.colors.success", "#a3be8c");
    put_number(table, "theme.decorations.border.width", N2);
    put_number(table, "theme.decorations.border.radius", N6);
    put_text(table, "theme.decorations.border.active_color", "#88c0d0");
    put_text(table, "theme.decorations.border.inactive_color", "#2e3440");
    put_number(table, "theme.decorations.border.inactive_dim", SEVEN_TWENTIETHS);
    put_text(table, "theme.decorations.border.focused_style", "solid");
}

/// Adds the defaults of the look.
pub open spec fn with_theme_second(values: Map<Seq<char>, ConfigView>) -> Map<Seq<char>, ConfigView> {
    values
        .insert("theme.decorations.border.unfocused_style"@, ConfigView::Text("solid"@))
        .insert("theme.decorations.title_bar.height"@, number(N24))
        .insert("theme.decorations.title_bar.show"@, ConfigView::Bool(true))
        .insert("theme.decorations.title_bar.font"@, ConfigView::Text("JetBrains Mono 10"@))
        .insert("theme.decorations.title_bar.background"@, ConfigView::Text("#2e3440"@))
        .insert("theme.decorations.title_bar.foreground"@, ConfigView::Text("#eceff4"@))
        .insert("theme.decorations.title_bar.foreground_focused"@, ConfigView::Text("#88c0d0"@))
        .insert("theme.decorations.title_bar.foreground_unfocused"@, ConfigView::Text("#4c566a"@))
}

fn put_theme_second(table: &mut TextTable<ConfigValue>)
    requires
        old(table).wf(),
    ensures
        final(table).wf(),
        values_of(final(table)@) == with_theme_second(values_of(old(table)@)),
{
    put_text(table, "theme.decorations.border.unfocused_style", "solid");
    put_number(table, "theme.decorations.title_bar.height", N24);
    put_bool(table, "theme.decorations.title_bar.show", true);
    put_text(table, "theme.decorations.title_bar.font", "JetBrains Mono 10");
    put_text(table, "theme.decorations.title_bar.background", "#2e3440");
    put_text(table, "theme.decorations.title_bar.foreground", "#eceff4");
    put_text(table, "theme.decorations.title_bar.foreground_focused", "#88c0d0");
    put_text(table, "theme.decorations.title_bar.foreground_unfocused", "#4c566a");
}

/// Adds the defaults of the platforms.
pub open spec fn with_platform(values: Map<Seq<char>, ConfigView>) -> Map<Seq<char>, ConfigView> {
    values
        .insert("platform.backend"@, ConfigView::Text("auto"@))
        .insert("platform.x11.use_ewmh"@, ConfigView::Bool(true))
        .insert("platform.x11.use_netwm"@, ConfigView::Bool(true))
        .insert("platform.wayland.use_xdg_shell"@, ConfigView::Bool(true))
        .insert("platform.wayland.use_layer_shell"@, ConfigView::Bool(true))
        .insert("platform.windows.use_dwm"@, ConfigView::Bool(true))
        .insert("platform.windows.use_win32"@, ConfigView::Bool(true))
        .insert("platform.windows.global_hooks"@, ConfigView::Bool(true))
        .insert("platform.macos.use_cocoa"@, ConfigView::Bool(true))
        .insert("platform.macos.use_core_graphics"@, ConfigView::Bool(true))
        .insert("platform.macos.accessibility_enabled"@, ConfigView::Bool(true))
}

fn put_platform(table: &mut TextTable<ConfigValue>)
    requires
        old(table).wf(),
    ensures
        final(table).wf(),
        values_of(final(table)@) == with_platform(values_of(old(table)@)),
{
    put_text(table, "platform.backend", "auto");
    put_bool(table, "platform.x11.use_ewmh", true);
    put_bool(table, "platform.x11.use_netwm", true);
    put_bool(table, "platform.wayland.use_xdg_shell", true);
    put_bool(table, "platform.wayland.use_layer_shell", true);
    put_bool(table, "platform.windows.use_dwm", true);
    put_bool(table, "platform.windows.use_win32", true);
    put_bool(table, "platform.windows.global_hooks", true);
    put_bool(table, "platform.macos.use_cocoa", true);
    put_bool(table, "platform.macos.use_core_graphics", true);
    put_bool(table, "platform.macos.accessibility_enabled", true);
}

/// The values that are in force before any script has run.
pub open spec fn defaults() -> Map<Seq<char>, ConfigView> {
    let values = Map::empty();
    let values = with_general_first(values);
    let values = with_general_second(values);
    let values = with_monitor(values);
    let values = with_workspace(values);
    let values = with_performance(values);
    let values = with_debug(values);
    let values = with_layout_first(values);
    let values = with_layout_second(values);
    let values = with_theme_first(values);
    let values = with_theme_second(values);
    let values = with_platform(values);
    values
}

/// The values that are in force before any script has run.
pub fn default_config() -> (r: TextTable<ConfigValue>)
    ensures
        r.wf(),
        values_of(r@) == defaults(),
{
    let mut table: TextTable<ConfigValue> = TextTable::new();
    assert(values_of(table@) =~= Map::empty());
    put_general_first(&mut table);
    put_general_second(&mut table);
    put_monitor(&mut table);
    put_workspace(&mut table);
    put_performance(&mut table);
    put_debug(&mut table);
    put_layout_first(&mut table);
    put_layout_second(&mut table);
    put_theme_first(&mut table);
    put_theme_second(&mut table);
    put_platform(&mut table);
    table
}

} // verus!
