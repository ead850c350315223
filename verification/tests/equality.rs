use srdwm::config::ConfigValue;
use srdwm::event::{Event, Modifiers};
use srdwm::ieee::{Float32, Float64};
use srdwm::window::{GlobalMenu, MenuSource};
use srdwm::{LockConfig, Monitor, Rect, ThemeConfig, TitlebarButton};

fn single(v: f32) -> Float32 {
    Float32 { bits: v.to_bits() }
}

fn double(v: f64) -> Float64 {
    Float64 { bits: v.to_bits() }
}

#[test]
fn numbers_compare_as_numbers() {
    for a in [0.0f32, -0.0, 1.0, -1.0, f32::MIN_POSITIVE, f32::INFINITY, f32::NEG_INFINITY, f32::NAN] {
        for b in [0.0f32, -0.0, 1.0, -1.0, f32::MIN_POSITIVE, f32::INFINITY, f32::NEG_INFINITY, f32::NAN] {
            assert_eq!(single(a).is_equal(&single(b)), a == b, "{a} and {b}");
            assert_eq!(double(a as f64).is_equal(&double(b as f64)), a as f64 == b as f64, "{a} and {b}");
        }
    }
}

#[test]
fn lock_configurations_compare_by_their_fields() {
    let base = LockConfig::default();
    assert_eq!(base, base.clone());
    assert_eq!(base, LockConfig { box_opacity: single(-0.0), ..Default::default() });
    assert_ne!(base, LockConfig { box_opacity: single(0.5), ..Default::default() });
    assert_ne!(base, LockConfig { fail_message: "no".to_string(), ..Default::default() });
    assert_ne!(base, LockConfig { avatar_bg: (0x88, 0xc0, 0xd1), ..Default::default() });
    assert_ne!(base, LockConfig { show_keyboard: false, ..Default::default() });
    let odd = LockConfig { box_opacity: single(f32::NAN), ..Default::default() };
    assert_ne!(odd, odd.clone());
}

#[test]
fn themes_compare_by_their_fields() {
    let base = ThemeConfig::default();
    assert_eq!(base, base.clone());
    assert_ne!(base, ThemeConfig { border_inactive_dim: single(0.5), ..base });
    assert_ne!(base, ThemeConfig { titlebar_bg: (0, 0, 0), ..base });
    let order = [TitlebarButton::Close, TitlebarButton::Minimize, TitlebarButton::Maximize];
    let other = [TitlebarButton::Close, TitlebarButton::Maximize, TitlebarButton::Minimize];
    let with_order = ThemeConfig { button_order: Some(order), ..base };
    assert_ne!(base, with_order);
    assert_eq!(with_order, ThemeConfig { button_order: Some(order), ..base });
    assert_ne!(with_order, ThemeConfig { button_order: Some(other), ..base });
}

#[test]
fn configuration_values_compare_within_their_kind() {
    let list = |items: &[&str]| ConfigValue::List(items.iter().map(|s| s.to_string()).collect());
    assert_eq!(ConfigValue::String("a".into()), ConfigValue::String("a".into()));
    assert_ne!(ConfigValue::String("a".into()), ConfigValue::String("b".into()));
    assert_eq!(ConfigValue::Number(double(0.0)), ConfigValue::Number(double(-0.0)));
    assert_ne!(ConfigValue::Number(double(f64::NAN)), ConfigValue::Number(double(f64::NAN)));
    assert_eq!(ConfigValue::Bool(true), ConfigValue::Bool(true));
    assert_ne!(ConfigValue::Bool(true), ConfigValue::String("true".into()));
    assert_eq!(list(&["a", "b"]), list(&["a", "b"]));
    assert_ne!(list(&["a", "b"]), list(&["a", "c"]));
    assert_ne!(list(&["a"]), list(&["a", "b"]));
}

#[test]
fn menus_compare_by_their_fields() {
    let menu = GlobalMenu { bus_name: ":1.5".into(), menu_path: Some("/menu".into()), ..Default::default() };
    assert_eq!(menu, menu.clone());
    assert_ne!(menu, GlobalMenu::default());
    assert_eq!(GlobalMenu::default().source, MenuSource::Gtk);
}

#[test]
fn events_are_copied_whole() {
    let events = [
        Event::WindowCreated(1),
        Event::WindowDestroyed(2),
        Event::WindowTitleChanged(3, "title".into()),
        Event::WindowMoved { id: 4, x: -1, y: 2 },
        Event::WindowResized { id: 5, width: 6, height: 7 },
        Event::WindowFocused(8),
        Event::WindowUnfocused(9),
        Event::KeyPress { key_name: "a".into(), modifiers: Modifiers { bits: Modifiers::CTRL } },
        Event::KeyRelease { key_name: "b".into(), modifiers: Modifiers::default() },
        Event::MouseMotion { x: 10, y: 11 },
        Event::MonitorAdded(Monitor::new(1, "m", Rect::new(0, 0, 10, 20))),
        Event::MonitorRemoved(12),
        Event::LidSwitch { closed: true },
        Event::WorkspaceChanged,
    ];
    for e in &events {
        assert_eq!(format!("{:?}", e), format!("{:?}", e.clone()));
    }
    assert_eq!(Modifiers::default(), Modifiers::empty());
}
