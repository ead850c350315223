use srdwm::ieee::Float32;
use srdwm::{Layout, MasterStackLayout, Monitor, NoOpLayout, Rect, TilingConfig};

fn monitor() -> Monitor {
    Monitor::new(0, "test", Rect::new(0, 0, 1920, 1080))
}

#[test]
fn single_window_fills_monitor_minus_outer_gap() {
    let layout = MasterStackLayout;
    let cfg = TilingConfig { gap_outer: 20, ..Default::default() };
    let result = layout.arrange(&[1], &monitor(), &cfg);
    assert_eq!(result[&1], Rect::new(20, 20, 1880, 1040));
}

#[test]
fn two_windows_split_master_and_stack() {
    let layout = MasterStackLayout;
    let cfg = TilingConfig { gap_outer: 0, gap_inner: 0, master_ratio: Float32 { bits: 0.6f32.to_bits() }, master_count: 1 };
    let result = layout.arrange(&[1, 2], &monitor(), &cfg);
    assert_eq!(result[&1].width, 1152);
    assert_eq!(result[&2].width, 768);
    assert_eq!(result[&1].height, 1080);
    assert_eq!(result[&2].height, 1080);
}

#[test]
fn three_windows_stack_splits_remaining_height_evenly() {
    let layout = MasterStackLayout;
    let cfg = TilingConfig { gap_outer: 0, gap_inner: 0, master_ratio: Float32 { bits: 0.5f32.to_bits() }, master_count: 1 };
    let result = layout.arrange(&[1, 2, 3], &monitor(), &cfg);
    assert_eq!(result[&2].height, 540);
    assert_eq!(result[&3].height, 540);
    assert_eq!(result[&2].y, 0);
    assert_eq!(result[&3].y, 540);
}

#[test]
fn no_op_layout_never_moves_windows() {
    let layout = NoOpLayout("dynamic");
    let result = layout.arrange(&[1, 2, 3], &monitor(), &TilingConfig::default());
    assert!(result.is_empty());
}
