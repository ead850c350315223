//! Platforms: what kinds there are, and how their backends fail.
use crate::text::{joined, same};
use vstd::prelude::*;

verus! {

/// The kind of display system that the window manager runs on.
#[derive(Debug, Clone, Copy, PartialEq, Eq, Structural)]
pub enum PlatformKind {
    X11,
    Wayland,
    Windows,
    MacOS,
}

/// Why a backend could not do something.
#[derive(Debug)]
pub enum PlatformError {
    /// The backend has no way to do it.
    Unsupported(&'static str),
    /// The system refused.
    Other(String),
}

/// The platform of a Unix session: Wayland where there is a `WAYLAND_DISPLAY`
/// or the session says that it is one of Wayland, and X11 otherwise.
pub fn detect(has_wayland_display: bool, session_type: Option<&str>) -> (r: PlatformKind)
    ensures
        r == (if has_wayland_display || (session_type matches Some(t) && t@ == "wayland"@) {
            PlatformKind::Wayland
        } else {
            PlatformKind::X11
        }),
{
    let says_so: bool = match session_type {
        Some(t) => same(t, "wayland"),
        None => false,
    };
    if has_wayland_display || says_so {
        PlatformKind::Wayland
    } else {
        PlatformKind::X11
    }
}

/// What a backend says if the system does not tell its displays.
pub fn displays_failed(reason: &str) -> (r: PlatformError)
    ensures
        r matches PlatformError::Other(s) && s@ == "CGGetActiveDisplayList failed: "@ + reason@,
{
    PlatformError::Other(joined("CGGetActiveDisplayList failed: ", reason))
}

} // verus!
