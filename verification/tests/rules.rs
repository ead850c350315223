use srdwm::rules::{Regex, WindowMatch};
use srdwm::window::Window;

#[test]
fn empty_matcher_matches_nothing() {
    let w = Window::new(1, "anything");
    assert!(!WindowMatch::default().matches(&w));
}

#[test]
fn title_match_is_case_insensitive_substring() {
    let w = Window::new(1, "Mozilla Firefox");
    let m = WindowMatch { title_contains: Some("firefox".into()), ..Default::default() };
    assert!(m.matches(&w));
}

#[test]
fn class_match_is_case_insensitive_exact() {
    let mut w = Window::new(1, "");
    w.app_id = "Firefox".into();
    let m = WindowMatch { class: Some("firefox".into()), ..Default::default() };
    assert!(m.matches(&w));
    let mut w2 = Window::new(2, "");
    w2.app_id = "firefoxx".into();
    assert!(!m.matches(&w2));
}

#[test]
fn title_regex_matches_a_specific_dialog_without_matching_the_main_window() {
    let m = WindowMatch { title_regex: Some(Regex::new(r"^Save File$").unwrap()), ..Default::default() };
    let dialog = Window::new(1, "Save File");
    let main = Window::new(2, "Save File - GNU Image Manipulation Program");
    assert!(m.matches(&dialog));
    assert!(!m.matches(&main));
}

#[test]
fn class_regex_is_case_sensitive_unless_the_pattern_opts_in() {
    let mut w = Window::new(1, "");
    w.app_id = "firefox".into();
    let sensitive = WindowMatch { class_regex: Some(Regex::new(r"^Firefox$").unwrap()), ..Default::default() };
    assert!(!sensitive.matches(&w));
    let insensitive = WindowMatch { class_regex: Some(Regex::new(r"(?i)^Firefox$").unwrap()), ..Default::default() };
    assert!(insensitive.matches(&w));
}

#[test]
fn instance_match_is_case_insensitive_exact_and_independent_of_class() {
    let mut w = Window::new(1, "");
    w.app_id = "Navigator".into();
    w.instance = "firefox".into();
    let m = WindowMatch { instance: Some("Firefox".into()), ..Default::default() };
    assert!(m.matches(&w));
    let mut w2 = Window::new(2, "");
    w2.instance = "firefoxdeveloperedition".into();
    assert!(!m.matches(&w2));
}

#[test]
fn multiple_criteria_are_combined_with_and() {
    let mut w = Window::new(1, "Preferences");
    w.app_id = "firefox".into();
    let m = WindowMatch { class: Some("firefox".into()), title_contains: Some("preferences".into()), ..Default::default() };
    assert!(m.matches(&w));
    let mut w2 = Window::new(2, "Mozilla Firefox");
    w2.app_id = "firefox".into();
    assert!(!m.matches(&w2));
}

#[test]
fn a_nonempty_instance_criterion_does_not_match_a_wayland_native_window() {
    let w = Window::new(1, "");
    let m = WindowMatch { instance: Some("firefox".into()), ..Default::default() };
    assert!(!m.matches(&w));
}
