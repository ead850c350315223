use srdwm::ctl::{build_dispatch, build_request, is_refusal, socket_name};
use srdwm::platform::PlatformKind;

fn args(strs: &[&str]) -> Vec<String> {
    strs.iter().map(|s| s.to_string()).collect()
}

#[test]
fn toggle_floating_and_toggle_pinned_read_as_two_words() {
    assert_eq!(build_request(&args(&["dispatch", "toggle", "floating", "42"])).unwrap(), r#"{"cmd":"toggle_floating","id":42}"#);
    assert_eq!(build_request(&args(&["dispatch", "toggle", "pinned", "42"])).unwrap(), r#"{"cmd":"toggle_pinned","id":42}"#);
}

#[test]
fn toggle_with_an_unknown_target_is_rejected_client_side() {
    assert!(build_request(&args(&["dispatch", "toggle", "sideways", "42"])).is_err());
}

#[test]
fn capture_workspace_with_and_without_a_size() {
    assert_eq!(
        build_request(&args(&["capture", "workspace", "1", "/tmp/ws1.ppm"])).unwrap(),
        r#"{"cmd":"capture_workspace","id":1,"path":"/tmp/ws1.ppm"}"#
    );
    assert_eq!(
        build_request(&args(&["capture", "workspace", "1", "/tmp/ws1.ppm", "200x120"])).unwrap(),
        r#"{"cmd":"capture_workspace","id":1,"path":"/tmp/ws1.ppm","width":200,"height":120}"#
    );
    assert!(build_request(&args(&["capture", "workspace", "1", "/tmp/ws1.ppm", "bogus"])).is_err());
    assert!(build_request(&args(&["capture", "workspace", "1"])).is_err(), "missing path must error");
    assert!(build_request(&args(&["capture", "monitor", "1", "/tmp/x.ppm"])).is_err(), "only 'workspace' is a valid capture target");
}

#[test]
fn move_window_needs_a_direction_and_validates_it() {
    assert_eq!(build_request(&args(&["dispatch", "move", "window", "42", "left"])).unwrap(), r#"{"cmd":"move_window","id":42,"direction":"left"}"#);
    assert!(build_request(&args(&["dispatch", "move", "window", "42"])).is_err(), "missing direction must error, not silently omit it");
    assert!(build_request(&args(&["dispatch", "move", "window", "42", "sideways"])).is_err(), "an invalid direction must be rejected client-side");
}

#[test]
fn move_workspace_needs_a_numeric_workspace() {
    assert_eq!(build_request(&args(&["dispatch", "move", "workspace", "42", "2"])).unwrap(), r#"{"cmd":"move_to_workspace","id":42,"workspace":2}"#);
    assert!(build_request(&args(&["dispatch", "move", "workspace", "42"])).is_err(), "missing workspace must error");
    assert!(build_request(&args(&["dispatch", "move", "workspace", "42", "not-a-number"])).is_err());
}

#[test]
fn set_output_position_accepts_a_numeric_id() {
    assert_eq!(
        build_request(&args(&["dispatch", "set", "output", "position", "1", "1920", "0"])).unwrap(),
        r#"{"cmd":"set_output_position","id":1,"x":1920,"y":0}"#
    );
}

#[test]
fn set_output_position_accepts_a_name_when_not_purely_numeric() {
    assert_eq!(
        build_request(&args(&["dispatch", "set", "output", "position", "HDMI-A-1", "1920", "0"])).unwrap(),
        r#"{"cmd":"set_output_position","name":"HDMI-A-1","x":1920,"y":0}"#
    );
}

#[test]
fn set_output_position_needs_both_coordinates() {
    assert!(build_request(&args(&["dispatch", "set", "output", "position", "1", "1920"])).is_err(), "missing y must error");
    assert!(build_request(&args(&["dispatch", "set", "output", "position", "1", "not-a-number", "0"])).is_err());
}

#[test]
fn set_multi_cursor_accepts_only_true_or_false() {
    assert_eq!(build_request(&args(&["set", "multi_cursor", "true"])).unwrap(), r#"{"cmd":"set","key":"multi_cursor","value":true}"#);
    assert_eq!(build_request(&args(&["set", "multi_cursor", "false"])).unwrap(), r#"{"cmd":"set","key":"multi_cursor","value":false}"#);
    assert!(build_request(&args(&["set", "multi_cursor", "maybe"])).is_err());
}

#[test]
fn set_phone_mode_accepts_only_true_or_false() {
    assert_eq!(build_request(&args(&["set", "phone_mode", "true"])).unwrap(), r#"{"cmd":"set","key":"phone_mode","value":true}"#);
    assert_eq!(build_request(&args(&["set", "phone_mode", "false"])).unwrap(), r#"{"cmd":"set","key":"phone_mode","value":false}"#);
    assert!(build_request(&args(&["set", "phone_mode", "maybe"])).is_err());
}

#[test]
fn set_output_enabled_accepts_a_numeric_id_and_a_name() {
    assert_eq!(build_request(&args(&["dispatch", "set", "output", "enabled", "1", "false"])).unwrap(), r#"{"cmd":"set_output_enabled","id":1,"enabled":false}"#);
    assert_eq!(
        build_request(&args(&["dispatch", "set", "output", "enabled", "HDMI-A-1", "true"])).unwrap(),
        r#"{"cmd":"set_output_enabled","name":"HDMI-A-1","enabled":true}"#
    );
}

#[test]
fn set_output_split_accepts_a_numeric_id_and_a_name() {
    assert_eq!(build_request(&args(&["dispatch", "set", "output", "split", "1", "2"])).unwrap(), r#"{"cmd":"set_monitor_split","id":1,"parts":2,"rows":false}"#);
    assert_eq!(
        build_request(&args(&["dispatch", "set", "output", "split", "HDMI-A-1", "3", "rows"])).unwrap(),
        r#"{"cmd":"set_monitor_split","name":"HDMI-A-1","parts":3,"rows":true}"#
    );
}

#[test]
fn set_output_split_defaults_direction_to_columns() {
    assert_eq!(build_request(&args(&["dispatch", "set", "output", "split", "eDP-1", "2", "columns"])).unwrap(), r#"{"cmd":"set_monitor_split","name":"eDP-1","parts":2,"rows":false}"#);
}

#[test]
fn set_output_split_rejects_an_unknown_direction() {
    assert!(build_request(&args(&["dispatch", "set", "output", "split", "eDP-1", "2", "sideways"])).is_err());
}

#[test]
fn set_output_split_needs_a_part_count() {
    assert!(build_request(&args(&["dispatch", "set", "output", "split", "eDP-1"])).is_err());
    assert!(build_request(&args(&["dispatch", "set", "output", "split", "eDP-1", "not-a-number"])).is_err());
}

#[test]
fn create_fake_monitor_builds_a_sized_request() {
    assert_eq!(
        build_request(&args(&["dispatch", "create", "fake-monitor", "FAKE-1", "1920x1080"])).unwrap(),
        r#"{"cmd":"create_fake_monitor","name":"FAKE-1","width":1920,"height":1080}"#
    );
}

#[test]
fn remove_fake_monitor_needs_no_size() {
    assert_eq!(build_request(&args(&["dispatch", "remove", "fake-monitor", "FAKE-1"])).unwrap(), r#"{"cmd":"remove_fake_monitor","name":"FAKE-1"}"#);
}

#[test]
fn create_fake_monitor_rejects_a_malformed_size() {
    assert!(build_request(&args(&["dispatch", "create", "fake-monitor", "FAKE-1", "1920"])).is_err());
    assert!(build_request(&args(&["dispatch", "create", "fake-monitor", "FAKE-1", "widexhigh"])).is_err());
}

#[test]
fn pin_input_builds_a_request_with_pid_and_window_id() {
    assert_eq!(build_request(&args(&["dispatch", "pin", "input", "12345", "7"])).unwrap(), r#"{"cmd":"pin_input","pid":12345,"id":7}"#);
}

#[test]
fn unpin_input_builds_a_request_with_no_window_id() {
    assert_eq!(build_request(&args(&["dispatch", "unpin", "input", "12345"])).unwrap(), r#"{"cmd":"pin_input","pid":12345}"#);
}

#[test]
fn pin_input_requires_the_literal_noun_input() {
    assert!(build_request(&args(&["dispatch", "pin", "output", "12345", "7"])).is_err());
}

#[test]
fn pin_input_requires_a_window_id_but_unpin_does_not() {
    assert!(build_request(&args(&["dispatch", "pin", "input", "12345"])).is_err(), "'pin input' needs a window id");
    assert!(build_request(&args(&["dispatch", "unpin", "input", "12345", "7"])).is_ok(), "'unpin input' ignores a trailing window id rather than erroring");
}

#[test]
fn pin_input_rejects_a_non_numeric_pid() {
    assert!(build_request(&args(&["dispatch", "pin", "input", "not-a-number", "7"])).is_err());
}

#[test]
fn set_output_enabled_rejects_anything_but_true_or_false() {
    assert!(build_request(&args(&["dispatch", "set", "output", "enabled", "1", "yes"])).is_err());
    assert!(build_request(&args(&["dispatch", "set", "output", "enabled", "1"])).is_err(), "missing value must error");
}

#[test]
fn lock_needs_no_id() {
    assert_eq!(build_request(&args(&["dispatch", "lock"])).unwrap(), r#"{"cmd":"lock"}"#);
}

#[test]
fn focus_and_close_stay_single_word_verbs() {
    assert_eq!(build_request(&args(&["dispatch", "focus", "42"])).unwrap(), r#"{"cmd":"focus","id":42}"#);
    assert_eq!(build_request(&args(&["dispatch", "close", "42"])).unwrap(), r#"{"cmd":"close","id":42}"#);
}

#[test]
fn activate_workspace_and_cycle_keyboard_layout_read_as_real_phrases() {
    assert_eq!(build_request(&args(&["dispatch", "activate", "workspace", "1"])).unwrap(), r#"{"cmd":"activate_workspace","id":1}"#);
    assert_eq!(build_request(&args(&["dispatch", "cycle", "keyboard", "layout"])).unwrap(), r#"{"cmd":"cycle_keyboard_layout"}"#);
}

#[test]
fn a_joined_snake_case_action_is_no_longer_accepted() {
    assert!(build_request(&args(&["dispatch", "toggle_floating", "42"])).is_err());
}

#[test]
fn keyboard_layout_query_reads_as_two_words_too() {
    assert_eq!(build_request(&args(&["keyboard", "layout"])).unwrap(), r#"{"cmd":"keyboard_layout"}"#);
    assert!(build_request(&args(&["keyboard_layout"])).is_err());
}

#[test]
fn set_decoration_mode_accepts_only_server_or_client() {
    assert_eq!(build_request(&args(&["set", "decoration_mode", "server"])).unwrap(), r#"{"cmd":"set","key":"decoration_mode","value":"server"}"#);
    assert_eq!(build_request(&args(&["set", "decoration_mode", "client"])).unwrap(), r#"{"cmd":"set","key":"decoration_mode","value":"client"}"#);
    assert!(build_request(&args(&["set", "decoration_mode", "both"])).is_err());
}

#[test]
fn night_light_and_reading_mode_accept_only_true_or_false() {
    assert_eq!(build_request(&args(&["set", "night_light", "true"])).unwrap(), r#"{"cmd":"set","key":"night_light","value":true}"#);
    assert_eq!(build_request(&args(&["set", "night_light", "false"])).unwrap(), r#"{"cmd":"set","key":"night_light","value":false}"#);
    assert_eq!(build_request(&args(&["set", "reading_mode", "true"])).unwrap(), r#"{"cmd":"set","key":"reading_mode","value":true}"#);
    assert!(build_request(&args(&["set", "night_light", "warm"])).is_err());
}

#[test]
fn settings_query_needs_no_further_arguments() {
    assert_eq!(build_request(&args(&["settings"])).unwrap(), r#"{"cmd":"settings"}"#);
}

#[test]
fn every_complaint_of_dispatch_has_its_words() {
    let hint = "expected one of: focus, close, lock, toggle visibility/maximize/fullscreen/floating/pinned, move window/workspace, activate workspace, cycle keyboard layout, pin input, unpin input";
    let cases: Vec<(Vec<&str>, String)> = vec![
        (vec![], "dispatch needs an action, e.g. 'focus', 'close', 'toggle maximize', 'move window'".to_string()),
        (vec!["dance"], format!("unknown dispatch action 'dance' - {hint}")),
        (vec!["focus"], "dispatch needs an id".to_string()),
        (vec!["focus", "x"], "id must be a number".to_string()),
        (vec!["toggle"], "'toggle' needs a target: visibility, maximize, fullscreen, floating, or pinned".to_string()),
        (vec!["toggle", "sideways", "1"], format!("unknown 'toggle' target 'sideways' - {hint}")),
        (vec!["move"], "'move' needs a target: window or workspace".to_string()),
        (vec!["move", "sky", "1"], format!("unknown 'move' target 'sky' - {hint}")),
        (vec!["move", "window", "1"], "'move window' needs a direction (left/right/up/down)".to_string()),
        (vec!["move", "window", "1", "in"], "direction must be one of: left, right, up, down (got 'in')".to_string()),
        (vec!["move", "workspace", "1"], "'move workspace' needs a target workspace".to_string()),
        (vec!["move", "workspace", "1", "x"], "workspace must be a number".to_string()),
        (vec!["activate"], format!("'activate' only supports 'workspace' - {hint}")),
        (vec!["cycle", "keyboard"], format!("'cycle' only supports 'keyboard layout' - {hint}")),
        (vec!["set"], format!("'set' only supports 'output position'/'output enabled'/'output split' - {hint}")),
        (vec!["set", "output"], "'set output' needs a target: position, enabled or split".to_string()),
        (vec!["set", "output", "position"], "'set output' needs a monitor name or id".to_string()),
        (vec!["set", "output", "glow", "1"], format!("unknown 'set output' target 'glow' - {hint}")),
        (vec!["set", "output", "position", "1"], "'set output position' needs an x coordinate".to_string()),
        (vec!["set", "output", "position", "1", "x"], "x must be a number".to_string()),
        (vec!["set", "output", "position", "1", "2"], "'set output position' needs a y coordinate".to_string()),
        (vec!["set", "output", "position", "1", "2", "y"], "y must be a number".to_string()),
        (vec!["set", "output", "enabled", "1"], "'set output enabled' needs true or false".to_string()),
        (vec!["set", "output", "split", "1"], "'set output split' needs a part count".to_string()),
        (vec!["set", "output", "split", "1", "x"], "parts must be a number".to_string()),
        (
            vec!["set", "output", "split", "1", "2", "sideways"],
            "'set output split' direction must be 'rows' or 'columns', got 'sideways'".to_string(),
        ),
        (vec!["create"], format!("'create' only supports 'fake-monitor' - {hint}")),
        (vec!["remove", "fake-monitor"], "'fake-monitor' needs a name".to_string()),
        (vec!["create", "fake-monitor", "F"], "'create fake-monitor' needs a <width>x<height>".to_string()),
        (vec!["create", "fake-monitor", "F", "9"], "size must be '<width>x<height>', e.g. 1920x1080".to_string()),
        (vec!["create", "fake-monitor", "F", "ax9"], "width must be a number".to_string()),
        (vec!["create", "fake-monitor", "F", "9xa"], "height must be a number".to_string()),
        (vec!["unpin"], format!("'unpin' only supports 'input' - {hint}")),
        (vec!["pin", "input"], "dispatch needs a pid".to_string()),
        (vec!["pin", "input", "x"], "pid must be a number".to_string()),
        (vec!["pin", "input", "1"], "'pin input' needs a window id".to_string()),
        (vec!["pin", "input", "1", "x"], "window id must be a number".to_string()),
    ];
    for (words, message) in cases {
        assert_eq!(build_dispatch(&args(&words)).unwrap_err(), message);
    }
}

#[test]
fn every_other_complaint_has_its_words() {
    let cases: Vec<(Vec<&str>, &str)> = vec![
        (vec![], "expected 'clients', 'monitors', 'workspaces', 'settings', 'keyboard layout', 'subscribe', 'dispatch <action> <id>', 'capture workspace <id> <path>', or 'set <key> <value>'"),
        (vec!["keyboard"], "did you mean 'srd keyboard layout'?"),
        (vec!["capture"], "'capture' only supports 'workspace' - usage: srd capture workspace <id> <path> [<width>x<height>]"),
        (vec!["capture", "workspace"], "capture needs a workspace id"),
        (vec!["capture", "workspace", "x"], "id must be a number"),
        (vec!["capture", "workspace", "1"], "capture needs an output path"),
        (vec!["capture", "workspace", "1", "p", "9"], "size must look like <width>x<height>"),
        (vec!["capture", "workspace", "1", "p", "ax9"], "width must be a number"),
        (vec!["capture", "workspace", "1", "p", "9xa"], "height must be a number"),
        (vec!["set", "border_width"], "set needs a value"),
        (vec!["set", "border_width", "x"], "border_width needs a numeric value"),
        (vec!["set", "shadows", "x"], "shadows needs 'true' or 'false'"),
        (vec!["set", "decoration_mode", "x"], "decoration_mode needs 'server' or 'client'"),
        (vec!["set", "glow", "x"], "unknown set key 'glow'"),
    ];
    for (words, message) in cases {
        assert_eq!(build_request(&args(&words)).unwrap_err(), message);
    }
    assert!(build_request(&args(&["set"])).unwrap_err().starts_with("set needs a key (border_width/border_color/"));
}

#[test]
fn queries_and_settings_become_lines() {
    assert_eq!(build_request(&args(&["clients"])).unwrap(), r#"{"cmd":"clients"}"#);
    assert_eq!(build_request(&args(&["subscribe"])).unwrap(), r#"{"cmd":"subscribe"}"#);
    assert_eq!(build_request(&args(&["set", "gap_inner", "+8"])).unwrap(), r#"{"cmd":"set","key":"gap_inner","value":8}"#);
    assert_eq!(
        build_request(&args(&["set", "border_color", "#cba6f7"])).unwrap(),
        r##"{"cmd":"set","key":"border_color","value":"#cba6f7"}"##
    );
    assert_eq!(
        build_request(&args(&["capture", "workspace", "1", "a\"b"])).unwrap(),
        r#"{"cmd":"capture_workspace","id":1,"path":"a\"b"}"#
    );
    assert_eq!(
        build_request(&args(&["dispatch", "set", "output", "position", "1", "-5", "-0"])).unwrap(),
        r#"{"cmd":"set_output_position","id":1,"x":-5,"y":0}"#
    );
}

#[test]
fn refusals_are_told_from_answers() {
    assert!(is_refusal(r#"{"ok":false,"error":"no such window"}"#));
    assert!(!is_refusal(r#"{"ok":true}"#));
    assert!(!is_refusal(r#"{"clients":[]}"#));
}

#[test]
fn the_socket_is_named_after_the_display() {
    assert_eq!(socket_name(PlatformKind::X11, Some(":0"), Some("wayland-1")).unwrap(), "srdwm-:0.sock");
    assert_eq!(socket_name(PlatformKind::X11, None, None).unwrap_err(), "DISPLAY is not set");
    assert_eq!(socket_name(PlatformKind::Wayland, None, Some("wayland-1")).unwrap(), "srdwm-wayland-1.sock");
    assert_eq!(socket_name(PlatformKind::Wayland, None, None).unwrap(), "srdwm-wayland-0.sock");
}
