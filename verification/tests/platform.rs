use srdwm::macos::{Display, MacOsPlatform};
use srdwm::platform::{detect, displays_failed, PlatformError, PlatformKind};
use srdwm::window::Window;
use srdwm::Rect;

fn unsupported<T>(r: Result<T, PlatformError>) -> &'static str {
    match r {
        Err(PlatformError::Unsupported(what)) => what,
        _ => panic!("expected a refusal"),
    }
}

#[test]
fn the_backend_needs_a_macos_build() {
    assert_eq!(unsupported(MacOsPlatform::new(false)), "srdwm-macos was not compiled for a macOS target");
    assert_eq!(MacOsPlatform::new(true).unwrap().kind(), PlatformKind::MacOS);
}

#[test]
fn displays_become_monitors_in_order() {
    let platform = MacOsPlatform::new(true).unwrap();
    let displays = vec![
        Display { id: 7, bounds: Rect::new(0, 0, 1920, 1080) },
        Display { id: 9, bounds: Rect::new(1920, 0, 800, 600) },
    ];
    let monitors = platform.monitors(Some(&displays), 9).unwrap();
    assert_eq!(monitors.len(), 2);
    assert_eq!(monitors[1].id, 1);
    assert_eq!(monitors[0].name, "display-7");
    assert_eq!(monitors[1].geometry, Rect::new(1920, 0, 800, 600));
    assert!(!monitors[0].primary);
    assert!(monitors[1].primary);
    assert_eq!(unsupported(platform.monitors(None, 9)), "monitors");
}

#[test]
fn what_the_backend_cannot_do_it_refuses() {
    let mut p = MacOsPlatform::new(true).unwrap();
    assert_eq!(unsupported(p.poll_events()), "poll_events");
    assert_eq!(unsupported(p.focus(1)), "focus");
    assert_eq!(unsupported(p.close(1)), "close");
    assert_eq!(unsupported(p.minimize(1)), "minimize");
    assert_eq!(unsupported(p.restore(1)), "restore");
    assert_eq!(
        unsupported(p.apply_geometry(1, Rect::new(0, 0, 1, 1))),
        "apply_geometry (needs AXUIElement + Accessibility permission)"
    );
    assert_eq!(
        unsupported(p.redraw_decoration(1, &Window::new(1, "a"), true)),
        "redraw_decoration (needs the overlay-window design, see module docs)"
    );
    assert_eq!(unsupported(p.keyboard_layout()), "keyboard_layout");
}

#[test]
fn a_failed_listing_says_why() {
    match displays_failed("1000") {
        PlatformError::Other(message) => assert_eq!(message, "CGGetActiveDisplayList failed: 1000"),
        PlatformError::Unsupported(_) => panic!("expected another error"),
    }
}

#[test]
fn the_platform_is_told_by_the_session() {
    assert_eq!(detect(true, None), PlatformKind::Wayland);
    assert_eq!(detect(false, Some("wayland")), PlatformKind::Wayland);
    assert_eq!(detect(false, Some("x11")), PlatformKind::X11);
    assert_eq!(detect(false, None), PlatformKind::X11);
}
