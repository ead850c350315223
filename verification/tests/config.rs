use srdwm::config::actions::{
    act_on_focused, cycle_windows, cycle_workspace, focus_toward, is_floating, move_toward, parse_direction,
    send_focused, set_border_color, set_border_width, set_corner_radius, set_decorations, set_floating, set_opacity,
    set_resize_margin, split_monitor, use_layout, WindowAction,
};
use srdwm::config::rule::{parse_ratio, Compiled};
use srdwm::config::{ConfigValue, Engine, RuleRequest, ScriptEntry, ScriptKey, ScriptValue, UnreadableKey, Violation};
use srdwm::ieee::{Float32, Float64};
use srdwm::manager::{Direction, WindowManager};
use srdwm::rules::Regex;
use srdwm::window::Window;
use srdwm::{Monitor, Rect};

fn double(v: f64) -> Float64 {
    Float64 { bits: v.to_bits() }
}

fn single(v: f32) -> Float32 {
    Float32 { bits: v.to_bits() }
}

fn number(v: f64) -> ConfigValue {
    ConfigValue::Number(double(v))
}

fn text(v: &str) -> ScriptValue {
    ScriptValue::Text(Some(v.to_string()))
}

fn entry(key: &str, value: ScriptEntry) -> (ScriptKey, ScriptEntry) {
    (ScriptKey::Text(key.to_string()), value)
}

fn request() -> RuleRequest {
    RuleRequest {
        title: None,
        class: None,
        app_id: None,
        instance: None,
        title_regex: None,
        class_regex: None,
        floating: None,
        maximized: None,
        workspace: None,
        x: None,
        y: None,
        width: None,
        height: None,
        decorated: None,
        border_color: None,
        border_width: None,
        corner_radius: None,
        pinned: None,
        opacity: None,
        resize_margin: None,
        aspect_ratio: None,
    }
}

fn wm_with(title: &str) -> (WindowManager, u64) {
    let mut wm = WindowManager::new();
    let id = wm.alloc_window_id();
    wm.add_window(Window::new(id, title));
    (wm, id)
}

#[test]
fn converts_string_number_bool_and_list() {
    let lua = mlua::Lua::new();
    assert_eq!(ConfigValue::from_lua(&lua.load("'hi'").eval().unwrap()), Some(ConfigValue::String("hi".into())));
    assert_eq!(ConfigValue::from_lua(&lua.load("42").eval().unwrap()), Some(number(42.0)));
    assert_eq!(ConfigValue::from_lua(&lua.load("true").eval().unwrap()), Some(ConfigValue::Bool(true)));
    assert_eq!(
        ConfigValue::from_lua(&lua.load("{'1','2','3'}").eval().unwrap()),
        Some(ConfigValue::List(vec!["1".into(), "2".into(), "3".into()]))
    );
}

#[test]
fn lua_values_without_a_use_are_not_taken() {
    let lua = mlua::Lua::new();
    assert_eq!(ConfigValue::from_lua(&mlua::Value::Nil), None);
    assert_eq!(ConfigValue::from_lua(&lua.load("print").eval().unwrap()), None);
    assert_eq!(ConfigValue::from_lua(&lua.load("'\\xff'").eval().unwrap()), None);
    assert_eq!(ConfigValue::from_lua(&lua.load("{true}").eval().unwrap()), None);
    assert_eq!(ConfigValue::from_lua(&lua.load("0.25").eval().unwrap()), Some(number(0.25)));
}

#[test]
fn srd_set_and_get_roundtrip_scalars() {
    let mut engine = Engine::new();
    engine.set("general.window_gap", &ScriptValue::Integer(12));
    assert_eq!(engine.get("general.window_gap"), Some(number(12.0)));
}

#[test]
fn defaults_are_seeded_before_any_script_runs() {
    let engine = Engine::new();
    assert_eq!(engine.get_string("general.default_layout", ""), "dynamic");
}

#[test]
fn reset_restores_default_value() {
    let mut engine = Engine::new();
    engine.set("general.window_gap", &ScriptValue::Integer(99));
    engine.reset("general.window_gap");
    assert_eq!(engine.get("general.window_gap"), Some(number(8.0)));
}

#[test]
fn bind_stores_real_closure_and_dispatch_runs_it() {
    let mut engine = Engine::new();
    engine.bind("Mod4+q", 7);
    assert_eq!(engine.dispatch_keybinding("Mod4+q"), Some(7));
    engine.set("test.marker", &ScriptValue::Bool(true));
    assert_eq!(engine.get("test.marker"), Some(ConfigValue::Bool(true)));
    assert_eq!(engine.dispatch_keybinding("Mod4+nonexistent"), None);
}

#[test]
fn window_close_style_call_from_legacy_example_config_now_works() {
    let (mut wm, id) = wm_with("test");
    assert_eq!(wm.focused_window().map(|w| w.id), Some(id));
    set_floating(&mut wm, true);
    assert!(is_floating(&wm));
}

#[test]
fn layout_configure_updates_master_ratio_live() {
    let mut wm = WindowManager::new();
    let mut engine = Engine::new();
    let table = vec![entry("master_ratio", ScriptEntry::Value(ScriptValue::Number(double(0.75))))];
    let ratio = engine.configure_layout("tiling", &table).unwrap();
    if let Some(ratio) = ratio {
        wm.tiling.master_ratio = ratio;
    }
    assert_eq!(engine.get("layout.tiling.master_ratio"), Some(number(0.75)));
    assert!((f32::from_bits(wm.tiling.master_ratio.bits) - 0.75).abs() < f32::EPSILON);
}

#[test]
fn validate_config_passes_on_untouched_defaults() {
    let wm = WindowManager::new();
    let engine = Engine::new();
    assert!(engine.validate(&wm.available_layouts()).is_empty());
}

#[test]
fn validate_config_flags_out_of_range_gap_and_bad_color() {
    let wm = WindowManager::new();
    let mut engine = Engine::new();
    engine.set("general.window_gap", &ScriptValue::Integer(500));
    engine.set("theme.colors.background", &text("not-a-color"));
    let errors = engine.validate(&wm.available_layouts());
    assert_eq!(errors.len(), 2);
    assert_eq!(errors[0].message("500"), "general.window_gap = 500 is out of range [0, 100]");
    assert_eq!(
        errors[1].message(""),
        "theme.colors.background = 'not-a-color' is not a valid hex color (expected '#rrggbb')"
    );
}

#[test]
fn validate_config_flags_unregistered_layout_name() {
    let wm = WindowManager::new();
    let mut engine = Engine::new();
    engine.set("general.default_layout", &text("nonexistent"));
    let errors = engine.validate(&wm.available_layouts());
    assert_eq!(errors.len(), 1);
    assert!(matches!(errors[0], Violation::UnknownLayout { .. }));
    assert_eq!(
        errors[0].message(""),
        "general.default_layout = 'nonexistent' is not a registered layout [\"dynamic\", \"floating\", \"tiling\"]"
    );
}

#[test]
fn debug_namespace_reports_status_and_profiles() {
    let engine = Engine::new();
    let status = engine.config_status();
    assert!(status.keys > 0);
    let settings = engine.settings();
    assert!(settings.iter().any(|(k, v)| k == "general.window_gap" && *v == number(8.0)));
    assert_eq!(settings.len(), status.keys);
}

#[test]
fn srd_rule_floats_matching_window_on_creation() {
    let mut wm = WindowManager::new();
    let rule = RuleRequest { title: Some("calculator".into()), floating: Some(true), ..request() };
    wm.add_rule(rule.build().unwrap());
    let id = wm.alloc_window_id();
    wm.add_window(Window::new(id, "Calculator"));
    assert!(wm.is_floating(id));
}

#[test]
fn srd_monitor_split_stores_a_split_request_by_connector_name() {
    let mut wm = WindowManager::new();
    split_monitor(&mut wm, "eDP-1".to_string(), 2, Some("rows"));
    let split = wm.monitor_split("eDP-1").unwrap();
    assert_eq!(split.parts, 2);
    assert!(split.rows);
}

#[test]
fn srd_monitor_split_direction_defaults_to_columns() {
    let mut wm = WindowManager::new();
    split_monitor(&mut wm, "HDMI-A-1".to_string(), 3, None);
    let split = wm.monitor_split("HDMI-A-1").unwrap();
    assert_eq!(split.parts, 3);
    assert!(!split.rows);
}

#[test]
fn srd_monitor_scale_stores_a_factor_by_connector_name() {
    let mut wm = WindowManager::new();
    wm.set_monitor_scale("HDMI-A-1".to_string(), double(0.75));
    assert_eq!(wm.monitor_scale("HDMI-A-1"), Some(double(0.75)));
}

#[test]
fn srd_monitor_scale_with_a_non_positive_factor_clears_it() {
    let mut wm = WindowManager::new();
    wm.set_monitor_scale("HDMI-A-1".to_string(), double(0.75));
    wm.set_monitor_scale("HDMI-A-1".to_string(), double(0.0));
    assert_eq!(wm.monitor_scale("HDMI-A-1"), None);
}

#[test]
fn srd_monitor_split_with_one_part_clears_an_existing_split() {
    let mut wm = WindowManager::new();
    split_monitor(&mut wm, "eDP-1".to_string(), 2, None);
    assert!(wm.monitor_split("eDP-1").is_some());
    split_monitor(&mut wm, "eDP-1".to_string(), 1, None);
    assert!(wm.monitor_split("eDP-1").is_none());
}

#[test]
fn srd_window_scratchpad_hides_the_focused_window_and_show_brings_it_back() {
    let (mut wm, id) = wm_with("term");
    act_on_focused(&mut wm, WindowAction::ScratchpadAdd);
    assert!(wm.window(id).unwrap().minimized);
    assert!(wm.window(id).unwrap().scratchpad);
    wm.scratchpad_show();
    assert!(!wm.window(id).unwrap().minimized);
    assert_eq!(wm.focused_id(), Some(id));
}

#[test]
fn srd_rule_title_regex_matches_a_specific_dialog_not_the_main_window() {
    let mut wm = WindowManager::new();
    let rule = RuleRequest { title_regex: Some("^Save File$".into()), floating: Some(true), ..request() };
    wm.add_rule(rule.build().unwrap());
    let dialog = wm.alloc_window_id();
    wm.add_window(Window::new(dialog, "Save File"));
    let main = wm.alloc_window_id();
    wm.add_window(Window::new(main, "Save File - GIMP"));
    assert!(wm.is_floating(dialog));
    assert!(!wm.is_floating(main));
}

#[test]
fn srd_rule_instance_matches_independently_of_class() {
    let mut wm = WindowManager::new();
    let rule = RuleRequest { instance: Some("firefox".into()), pinned: Some(true), ..request() };
    wm.add_rule(rule.build().unwrap());
    let id = wm.alloc_window_id();
    let mut w = Window::new(id, "Mozilla Firefox");
    w.app_id = "Navigator".into();
    w.instance = "firefox".into();
    wm.add_window(w);
    assert!(wm.window(id).unwrap().always_on_top);
}

#[test]
fn srd_rule_rejects_an_invalid_regex_with_a_lua_error() {
    let rule = RuleRequest { title_regex: Some("(unclosed".into()), floating: Some(true), ..request() };
    let message = rule.build().unwrap_err();
    assert!(message.starts_with("srd.rule: invalid title_regex '(unclosed': "));
}

#[test]
fn bind_repeat_registers_the_binding_and_marks_it_repeating() {
    let mut engine = Engine::new();
    engine.bind("Mod4+a", 1);
    engine.bind_repeat("XF86AudioRaiseVolume", 2);

    let bound = engine.bound_keys();
    assert!(bound.contains(&"Mod4+a".to_string()));
    assert!(bound.contains(&"XF86AudioRaiseVolume".to_string()));

    let repeat = engine.repeat_keys();
    assert_eq!(repeat, vec!["XF86AudioRaiseVolume".to_string()]);
    assert!(!repeat.contains(&"Mod4+a".to_string()), "a plain bind must not repeat");
}

#[test]
fn bind_repeat_dispatches_like_a_normal_binding() {
    let mut engine = Engine::new();
    engine.bind_repeat("Mod4+z", 5);
    assert_eq!(engine.dispatch_keybinding("Mod4+z"), Some(5));
    assert_eq!(engine.dispatch_keybinding("Mod4+z"), Some(5));
}

// ---- Further cases ---------------------------------------------------------

#[test]
fn whole_numbers_become_the_nearest_double() {
    for n in [0i64, 1, -1, 12, 1000, (1 << 53) - 1, 1 << 53, (1 << 53) + 1, (1 << 53) + 3, i64::MAX, i64::MIN, -12345] {
        assert_eq!(Float64::of_i64(n).bits, (n as f64).to_bits(), "{n}");
    }
}

#[test]
fn doubles_narrow_to_the_nearest_single() {
    let values = [
        0.0, -0.0, 1.0, 0.6, 0.75, -0.35, 1e-40, 1e-46, 7e-46, 3.4028235e38, 3.4028236e38, 1e300, f64::INFINITY,
        16777217.0, 16777219.0, 5e-324, f64::NEG_INFINITY,
    ];
    for v in values {
        assert_eq!(double(v).narrowed().bits, (v as f32).to_bits(), "{v}");
    }
    assert!(f32::from_bits(double(f64::NAN).narrowed().bits).is_nan());
}

#[test]
fn default_numbers_are_what_they_are_named() {
    let engine = Engine::new();
    let cases = [
        ("general.animation_duration", 200.0),
        ("general.resize_margin", 6.0),
        ("performance.max_fps", 60.0),
        ("performance.event_queue_size", 1000.0),
        ("performance.layout_timeout", 16.0),
        ("layout.tiling.split_ratio", 0.5),
        ("layout.tiling.master_ratio", 0.6),
        ("layout.dynamic.snap_threshold", 20.0),
        ("layout.dynamic.cascade_offset", 30.0),
        ("theme.decorations.border.inactive_dim", 0.35),
        ("theme.decorations.title_bar.height", 24.0),
        ("workspace.count", 10.0),
    ];
    for (key, value) in cases {
        assert_eq!(engine.get_f64(key, double(-1.0)), double(value), "{key}");
    }
    assert_eq!(engine.config_status().keys, 100);
    let names = match engine.get("workspace.names") {
        Some(v) => v.as_list().unwrap().to_vec(),
        None => panic!("workspace.names is not set"),
    };
    assert_eq!(names, vec!["1", "2", "3", "4", "5", "6", "7", "8", "9", "0"]);
}

#[test]
fn values_of_another_type_give_the_default() {
    let engine = Engine::new();
    assert_eq!(engine.get_string("general.window_gap", "none"), "none");
    assert!(engine.get_bool("general.default_layout", true));
    assert!(!engine.get_bool("general.gpu", true));
    assert_eq!(engine.get_f64("no.such.key", double(3.0)), double(3.0));
    assert_eq!(engine.get("general.gpu").unwrap().as_str(), None);
    assert_eq!(engine.get("general.gpu").unwrap().as_f64(), None);
    assert_eq!(engine.get("general.window_gap").unwrap().as_bool(), None);
    assert_eq!(engine.get("general.window_gap").unwrap().as_list(), None);
}

#[test]
fn a_category_is_reset_without_touching_the_others() {
    let mut engine = Engine::new();
    engine.set("general.window_gap", &ScriptValue::Integer(1));
    engine.set("theme.colors.accent", &text("#000000"));
    engine.set("theme.mine", &text("x"));
    engine.set("themes", &text("stays"));
    engine.reset_category("theme");
    assert_eq!(engine.get_string("theme.colors.accent", ""), "#5e81ac");
    assert_eq!(engine.get("theme.mine"), None);
    assert_eq!(engine.get_string("themes", ""), "stays");
    assert_eq!(engine.get("general.window_gap"), Some(number(1.0)));
    engine.reset_all();
    assert_eq!(engine.get("general.window_gap"), Some(number(8.0)));
    assert_eq!(engine.get("themes"), None);
}

#[test]
fn resetting_a_key_without_a_default_removes_it() {
    let mut engine = Engine::new();
    engine.set_string("mine.key", "v");
    engine.reset("mine.key");
    assert_eq!(engine.get("mine.key"), None);
}

#[test]
fn a_failed_reload_brings_the_bindings_back() {
    let mut engine = Engine::new();
    engine.bind("Mod4+q", 1);
    engine.bind_repeat("Mod4+r", 2);
    engine.on("ready", 3).unwrap();
    let previous = engine.begin_reload();
    assert!(engine.bound_keys().is_empty());
    engine.bind("Mod4+x", 9);
    engine.set_string("kept.value", "yes");
    engine.finish_reload(previous, false);
    assert_eq!(engine.bound_keys(), vec!["Mod4+q", "Mod4+r"]);
    assert_eq!(engine.repeat_keys(), vec!["Mod4+r"]);
    assert_eq!(engine.dispatch_event("ready"), Some(3));
    assert_eq!(engine.get_string("kept.value", ""), "yes");
}

#[test]
fn a_reload_drops_what_the_script_no_longer_has() {
    let mut engine = Engine::new();
    engine.bind("Mod4+q", 1);
    let previous = engine.begin_reload();
    engine.bind("Mod4+x", 9);
    engine.finish_reload(previous, true);
    assert_eq!(engine.bound_keys(), vec!["Mod4+x"]);
}

#[test]
fn bindings_are_found_in_any_spelling() {
    let mut engine = Engine::new();
    engine.bind("Mod4+Shift+x", 4);
    assert_eq!(engine.dispatch_keybinding("Shift+Mod4+x"), Some(4));
    assert_eq!(engine.dispatch_keybinding("Mod4+Shift+x"), None);
}

#[test]
fn unknown_events_are_refused() {
    let mut engine = Engine::new();
    assert_eq!(
        engine.on("lid", 1).unwrap_err(),
        "srd.on: unknown event 'lid' (known: lid_closed, lid_open, ready)"
    );
    assert_eq!(engine.dispatch_event("lid"), None);
}

#[test]
fn nested_tables_flatten_into_dotted_keys() {
    let mut engine = Engine::new();
    let table = vec![
        entry("border", ScriptEntry::Table(vec![entry("width", ScriptEntry::Value(ScriptValue::Integer(2)))])),
        (ScriptKey::Other, ScriptEntry::Value(ScriptValue::Bool(true))),
        entry("odd", ScriptEntry::Value(ScriptValue::Other)),
    ];
    assert_eq!(engine.set_under("mine", &table), Ok(()));
    assert_eq!(engine.get("mine.border.width"), Some(number(2.0)));
    assert_eq!(engine.get("mine.odd"), None);

    let broken = vec![
        entry("a", ScriptEntry::Value(ScriptValue::Bool(true))),
        entry("b", ScriptEntry::Table(vec![(ScriptKey::Unreadable, ScriptEntry::Value(ScriptValue::Bool(true)))])),
        entry("c", ScriptEntry::Value(ScriptValue::Bool(true))),
    ];
    assert_eq!(engine.set_under("more", &broken), Err(UnreadableKey));
    assert_eq!(engine.get("more.a"), Some(ConfigValue::Bool(true)));
    assert_eq!(engine.get("more.c"), None);
}

#[test]
fn notes_are_logged_with_their_level() {
    let mut engine = Engine::new();
    assert_eq!(engine.notify("hello", None), "[info] hello");
    assert_eq!(engine.notify("oops", Some("error")), "[error] oops");
    assert_eq!(engine.config_status().log_entries, 2);
}

#[test]
fn quitting_clears_the_running_flag() {
    let mut engine = Engine::new();
    assert!(engine.is_running());
    engine.quit();
    assert!(!engine.is_running());
}

#[test]
fn directions_are_read_by_name() {
    assert_eq!(parse_direction("up", "x"), Ok(Direction::Up));
    assert_eq!(parse_direction("north", "srd.window.move").unwrap_err(), "srd.window.move: unknown direction 'north'");
    let (mut wm, _) = wm_with("a");
    assert_eq!(focus_toward(&mut wm, "east").unwrap_err(), "srd.window.focus: unknown direction 'east'");
    assert_eq!(move_toward(&mut wm, "east").unwrap_err(), "srd.window.move: unknown direction 'east'");
    assert!(focus_toward(&mut wm, "left").is_ok());
    assert!(move_toward(&mut wm, "left").is_ok());
}

#[test]
fn setters_change_the_focused_window() {
    let (mut wm, id) = wm_with("a");
    set_decorations(&mut wm, false);
    set_border_color(&mut wm, 1, 2, 3);
    set_border_width(&mut wm, 9);
    set_corner_radius(&mut wm, 11);
    set_resize_margin(&mut wm, 4);
    set_opacity(&mut wm, single(1.5));
    let w = wm.window(id).unwrap();
    assert!(!w.decorated);
    assert_eq!(w.border_color, (1, 2, 3));
    assert_eq!(w.border_width, 9);
    assert_eq!(w.corner_radius, 11);
    assert_eq!(w.resize_margin, Some(4));
    assert_eq!(w.opacity, single(1.0));
}

#[test]
fn actions_reach_the_focused_window() {
    let (mut wm, id) = wm_with("a");
    wm.set_monitors(vec![Monitor::new(0, "primary", Rect::new(0, 0, 1920, 1080))]);
    act_on_focused(&mut wm, WindowAction::Close);
    assert_eq!(wm.take_close_requests(), vec![id]);
    act_on_focused(&mut wm, WindowAction::Maximize);
    assert!(wm.window(id).unwrap().maximized);
    act_on_focused(&mut wm, WindowAction::Fullscreen);
    assert!(wm.is_fullscreen(id));
    act_on_focused(&mut wm, WindowAction::ToggleFloating);
    assert!(wm.is_floating(id));
    act_on_focused(&mut wm, WindowAction::TogglePin);
    assert!(wm.window(id).unwrap().always_on_top);
    act_on_focused(&mut wm, WindowAction::Minimize);
    assert!(wm.window(id).unwrap().minimized);
}

#[test]
fn workspaces_and_windows_cycle_round() {
    let (mut wm, id) = wm_with("a");
    let first = wm.current_workspace();
    let second = wm.add_workspace("2", "dynamic");
    let third = wm.add_workspace("3", "dynamic");
    cycle_workspace(&mut wm, false);
    assert_eq!(wm.current_workspace(), third);
    cycle_workspace(&mut wm, true);
    assert_eq!(wm.current_workspace(), first);
    cycle_workspace(&mut wm, true);
    assert_eq!(wm.current_workspace(), second);
    cycle_workspace(&mut wm, false);
    let other = wm.alloc_window_id();
    wm.add_window(Window::new(other, "b"));
    assert_eq!(wm.focused_id(), Some(other));
    cycle_windows(&mut wm, true);
    assert_eq!(wm.focused_id(), Some(id));
    assert_eq!(wm.stacking_order().last().map(|w| w.id), Some(id));
    send_focused(&mut wm, third);
    assert_eq!(wm.window(id).unwrap().workspace, third);
    use_layout(&mut wm, "tiling");
    assert_eq!(wm.workspace(first).unwrap().layout, "tiling");
}

#[test]
fn ratios_are_two_positive_whole_numbers() {
    assert_eq!(parse_ratio("9:16"), Some((9, 16)));
    assert_eq!(parse_ratio(" 4 : 3 "), Some((4, 3)));
    assert_eq!(parse_ratio("0:3"), None);
    assert_eq!(parse_ratio("4"), None);
    assert_eq!(parse_ratio("4:3:2"), None);
    let rule = RuleRequest { aspect_ratio: Some("wide".into()), ..request() };
    assert_eq!(
        rule.build().unwrap_err(),
        "srd.rule: aspect_ratio must be \"W:H\" with positive integers, got \"wide\""
    );
}

#[test]
fn a_rule_holds_what_was_asked() {
    let rule = RuleRequest {
        app_id: Some("term".into()),
        class_regex: Some("x+".into()),
        x: Some(1),
        y: Some(2),
        width: Some(3),
        height: Some(4),
        aspect_ratio: Some("16:9".into()),
        opacity: Some(single(0.5)),
        ..request()
    };
    let rule = rule.build().unwrap();
    assert_eq!(rule.matcher.class.as_deref(), Some("term"));
    assert_eq!(rule.matcher.class_regex.as_ref().map(|r| r.as_str()), Some("x+"));
    assert_eq!(rule.actions.geometry, Some(Rect::new(1, 2, 3, 4)));
    assert_eq!(rule.actions.aspect_ratio, Some((16, 9)));
    assert_eq!(rule.actions.opacity, Some(single(0.5)));

    let partly = RuleRequest { x: Some(1), y: Some(2), width: Some(3), ..request() };
    assert_eq!(partly.build().unwrap().actions.geometry, None);
}

#[test]
fn a_rule_is_made_from_compiled_expressions() {
    let bad = Compiled::Bad("(".to_string(), "unclosed".to_string());
    let message = request().build_with(Compiled::Absent, bad).unwrap_err();
    assert_eq!(message, "srd.rule: invalid class_regex '(': unclosed");
    let good = Compiled::Good(Regex::new("^a$").unwrap());
    let rule = request().build_with(good, Compiled::Absent).unwrap();
    assert!(rule.matcher.title_regex.unwrap().is_match("a"));
}
