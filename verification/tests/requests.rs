use srdwm::manager::{CaptureRequest, WindowManager};

#[test]
fn capture_requests_drain_in_arrival_order() {
    let mut wm = WindowManager::new();
    wm.request_capture_workspace(0, "/tmp/a.ppm".into(), None);
    wm.request_capture_workspace(1, "/tmp/b.ppm".into(), Some((100, 100)));
    assert_eq!(
        wm.drain_capture_requests(),
        vec![
            CaptureRequest { workspace: 0, path: "/tmp/a.ppm".into(), size: None },
            CaptureRequest { workspace: 1, path: "/tmp/b.ppm".into(), size: Some((100, 100)) },
        ]
    );
    assert!(wm.drain_capture_requests().is_empty(), "must not report the same requests twice");
}

#[test]
fn a_create_request_is_reported_once_then_the_queue_is_empty() {
    let mut wm = WindowManager::new();
    assert!(wm.drain_create_fake_monitor_requests().is_empty());
    wm.request_create_fake_monitor("FAKE-1".into(), 1920, 1080);
    assert_eq!(wm.drain_create_fake_monitor_requests(), vec![("FAKE-1".to_string(), 1920, 1080)]);
    assert!(wm.drain_create_fake_monitor_requests().is_empty());
}

#[test]
fn a_remove_request_is_reported_once_then_the_queue_is_empty() {
    let mut wm = WindowManager::new();
    wm.request_remove_fake_monitor("FAKE-1".into());
    assert_eq!(wm.drain_remove_fake_monitor_requests(), vec!["FAKE-1".to_string()]);
    assert!(wm.drain_remove_fake_monitor_requests().is_empty());
}

#[test]
fn multiple_create_requests_before_a_drain_are_all_preserved() {
    let mut wm = WindowManager::new();
    wm.request_create_fake_monitor("FAKE-1".into(), 1920, 1080);
    wm.request_create_fake_monitor("FAKE-2".into(), 1280, 720);
    assert_eq!(wm.drain_create_fake_monitor_requests(), vec![("FAKE-1".to_string(), 1920, 1080), ("FAKE-2".to_string(), 1280, 720)]);
}

#[test]
fn a_pin_request_is_reported_once_then_the_queue_is_empty() {
    let mut wm = WindowManager::new();
    assert!(wm.drain_pin_input_requests().is_empty());
    wm.request_pin_input(1234, Some(7));
    assert_eq!(wm.drain_pin_input_requests(), vec![(1234, Some(7))]);
    assert!(wm.drain_pin_input_requests().is_empty());
}

#[test]
fn a_second_request_for_the_same_pid_replaces_the_first_before_a_drain() {
    let mut wm = WindowManager::new();
    wm.request_pin_input(1234, Some(7));
    wm.request_pin_input(1234, Some(9));
    assert_eq!(wm.drain_pin_input_requests(), vec![(1234, Some(9))]);
}

#[test]
fn unpinning_is_a_real_queued_request_too_not_a_no_op() {
    let mut wm = WindowManager::new();
    wm.request_pin_input(1234, None);
    assert_eq!(wm.drain_pin_input_requests(), vec![(1234, None)]);
}

#[test]
fn drain_lock_request_is_true_once_then_false() {
    let mut wm = WindowManager::new();
    assert!(!wm.drain_lock_request(), "nothing requested yet");
    wm.request_lock();
    assert!(wm.drain_lock_request(), "must report the pending request");
    assert!(!wm.drain_lock_request(), "must not report the same request twice");
}

#[test]
fn drain_refresh_request_is_true_once_then_false() {
    let mut wm = WindowManager::new();
    assert!(!wm.drain_refresh_request(), "nothing requested yet");
    wm.request_refresh();
    assert!(wm.drain_refresh_request(), "must report the pending request");
    assert!(!wm.drain_refresh_request(), "must not report the same request twice");
}

#[test]
fn a_refresh_request_is_independent_of_a_lock_request() {
    let mut wm = WindowManager::new();
    wm.request_refresh();
    assert!(!wm.drain_lock_request(), "refresh must not look like a lock");
    assert!(wm.drain_refresh_request());
}

#[test]
fn requesting_lock_twice_before_a_drain_is_still_just_one_pending_request() {
    let mut wm = WindowManager::new();
    wm.request_lock();
    wm.request_lock();
    assert!(wm.drain_lock_request());
    assert!(!wm.drain_lock_request());
}
