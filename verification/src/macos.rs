//! The macOS backend: which displays there are. It has no way yet to control
//! the windows of other applications, and says so.
//!
//! Moving and focusing windows needs the Accessibility API, and decorating them
//! an overlay window above each, since macOS lets no one draw on the window of
//! another application.
use crate::event::Event;
use crate::geometry::Rect;
use crate::monitor::{Monitor, UNSCALED};
use crate::platform::{PlatformError, PlatformKind};
use crate::text::{decimal, joined, write_u64};
use crate::window::{Window, WindowId};
use vstd::prelude::*;

verus! {

#[derive(Debug)]
pub struct MacOsPlatform;

/// A display as the system describes it.
#[derive(Debug, Clone, Copy, PartialEq, Eq, Structural)]
pub struct Display {
    pub id: u32,
    pub bounds: Rect,
}

/// Whether a monitor is the one for a display, as the `n`-th of all.
pub open spec fn is_monitor_of(m: Monitor, display: Display, n: int, main: u32) -> bool {
    &&& m.id == n
    &&& m.name@ == "display-"@ + decimal(display.id as nat)
    &&& m.geometry == display.bounds
    &&& m.full_geometry == display.bounds
    &&& m.maximize_geometry == display.bounds
    &&& m.refresh_rate_mhz == 60_000
    &&& m.primary == (display.id == main)
    &&& !m.split
    &&& m.scale.bits == UNSCALED
    &&& !m.is_virtual
}

/// Whether a result is the refusal with this text.
pub open spec fn refused<T>(r: Result<T, PlatformError>, what: &'static str) -> bool {
    r matches Err(PlatformError::Unsupported(s)) && s@ == what@
}

impl MacOsPlatform {
    /// The backend, if the program was built for macOS.
    pub fn new(built_for_macos: bool) -> (r: Result<Self, PlatformError>)
        ensures
            built_for_macos ==> r is Ok,
            !built_for_macos ==> refused(r, "srdwm-macos was not compiled for a macOS target"),
    {
        if built_for_macos {
            Ok(MacOsPlatform)
        } else {
            Err(PlatformError::Unsupported("srdwm-macos was not compiled for a macOS target"))
        }
    }

    pub fn kind(&self) -> (r: PlatformKind)
        ensures
            r == PlatformKind::MacOS,
    {
        PlatformKind::MacOS
    }

    /// The monitors of the active displays, in their order, of which one is the
    /// main display. `None` is for a program that was not built for macOS and
    /// cannot ask for them.
    pub fn monitors(&self, displays: Option<&Vec<Display>>, main: u32) -> (r: Result<Vec<Monitor>, PlatformError>)
        requires
            displays matches Some(d) ==> d@.len() <= u32::MAX,
        ensures
            match displays {
                Some(d) => r matches Ok(m) && m@.len() == d@.len() && forall|i: int|
                    0 <= i < m@.len() ==> is_monitor_of(#[trigger] m@[i], d@[i], i, main),
                None => refused(r, "monitors"),
            },
            r matches Ok(m) ==> forall|i: int|
                #![trigger m@[i]]
                0 <= i < m@.len() ==> {
                    let bounds = displays->Some_0@[i].bounds;
                    &&& m@[i].id == i && m@[i].geometry == bounds && m@[i].full_geometry == bounds
                    &&& m@[i].maximize_geometry == bounds && !m@[i].split && !m@[i].is_virtual
                    &&& m@[i].primary <==> displays->Some_0@[i].id == main
                },
    {
        let displays = match displays {
            Some(d) => d,
            None => {
                return Err(PlatformError::Unsupported("monitors"));
            },
        };
        let mut monitors: Vec<Monitor> = Vec::new();
        let mut i: usize = 0;
        while i < displays.len()
            invariant
                i <= displays@.len() <= u32::MAX,
                monitors@.len() == i,
                forall|k: int| 0 <= k < i ==> is_monitor_of(#[trigger] monitors@[k], displays@[k], k, main),
            decreases displays@.len() - i,
        {
            let display = displays[i];
            let name = joined("display-", write_u64(display.id as u64).as_str());
            let mut m = Monitor::new(i as u32, name.as_str(), display.bounds);
            m.primary = display.id == main;
            monitors.push(m);
            i = i + 1;
        }
        Ok(monitors)
    }

    pub fn poll_events(&mut self) -> (r: Result<Vec<Event>, PlatformError>)
        ensures
            refused(r, "poll_events"),
            *final(self) == *old(self),
    {
        Err(PlatformError::Unsupported("poll_events"))
    }

    pub fn apply_geometry(&mut self, _window: WindowId, _geometry: Rect) -> (r: Result<(), PlatformError>)
        ensures
            refused(r, "apply_geometry (needs AXUIElement + Accessibility permission)"),
            *final(self) == *old(self),
    {
        Err(PlatformError::Unsupported("apply_geometry (needs AXUIElement + Accessibility permission)"))
    }

    pub fn set_title(&mut self, _window: WindowId, _title: &str) -> (r: Result<(), PlatformError>)
        ensures
            refused(r, "set_title (macOS windows are titled by their owning app, not the WM)"),
            *final(self) == *old(self),
    {
        Err(PlatformError::Unsupported("set_title (macOS windows are titled by their owning app, not the WM)"))
    }

    pub fn focus(&mut self, _window: WindowId) -> (r: Result<(), PlatformError>)
        ensures
            refused(r, "focus"),
            *final(self) == *old(self),
    {
        Err(PlatformError::Unsupported("focus"))
    }

    pub fn minimize(&mut self, _window: WindowId) -> (r: Result<(), PlatformError>)
        ensures
            refused(r, "minimize"),
            *final(self) == *old(self),
    {
        Err(PlatformError::Unsupported("minimize"))
    }

    pub fn restore(&mut self, _window: WindowId) -> (r: Result<(), PlatformError>)
        ensures
            refused(r, "restore"),
            *final(self) == *old(self),
    {
        Err(PlatformError::Unsupported("restore"))
    }

    pub fn close(&mut self, _window: WindowId) -> (r: Result<(), PlatformError>)
        ensures
            refused(r, "close"),
            *final(self) == *old(self),
    {
        Err(PlatformError::Unsupported("close"))
    }

    pub fn set_decorated(&mut self, _window: WindowId, _decorated: bool) -> (r: Result<(), PlatformError>)
        ensures
            refused(r, "set_decorated (needs the overlay-window design, see module docs)"),
            *final(self) == *old(self),
    {
        Err(PlatformError::Unsupported("set_decorated (needs the overlay-window design, see module docs)"))
    }

    pub fn set_border_color(&mut self, _window: WindowId, _rgb: (u8, u8, u8)) -> (r: Result<(), PlatformError>)
        ensures
            refused(r, "set_border_color (needs the overlay-window design, see module docs)"),
            *final(self) == *old(self),
    {
        Err(PlatformError::Unsupported("set_border_color (needs the overlay-window design, see module docs)"))
    }

    pub fn set_border_width(&mut self, _window: WindowId, _width: u32) -> (r: Result<(), PlatformError>)
        ensures
            refused(r, "set_border_width (needs the overlay-window design, see module docs)"),
            *final(self) == *old(self),
    {
        Err(PlatformError::Unsupported("set_border_width (needs the overlay-window design, see module docs)"))
    }

    pub fn redraw_decoration(&mut self, _window: WindowId, _win: &Window, _focused: bool) -> (r: Result<(), PlatformError>)
        ensures
            refused(r, "redraw_decoration (needs the overlay-window design, see module docs)"),
            *final(self) == *old(self),
    {
        Err(PlatformError::Unsupported("redraw_decoration (needs the overlay-window design, see module docs)"))
    }

    pub fn grab_keyboard(&mut self) -> (r: Result<(), PlatformError>)
        ensures
            refused(r, "grab_keyboard (needs a CGEventTap + Input Monitoring permission)"),
            *final(self) == *old(self),
    {
        Err(PlatformError::Unsupported("grab_keyboard (needs a CGEventTap + Input Monitoring permission)"))
    }

    pub fn ungrab_keyboard(&mut self) -> (r: Result<(), PlatformError>)
        ensures
            refused(r, "ungrab_keyboard"),
            *final(self) == *old(self),
    {
        Err(PlatformError::Unsupported("ungrab_keyboard"))
    }

    pub fn keyboard_layout(&mut self) -> (r: Result<String, PlatformError>)
        ensures
            refused(r, "keyboard_layout"),
            *final(self) == *old(self),
    {
        Err(PlatformError::Unsupported("keyboard_layout"))
    }

    pub fn cycle_keyboard_layout(&mut self) -> (r: Result<String, PlatformError>)
        ensures
            refused(r, "cycle_keyboard_layout"),
            *final(self) == *old(self),
    {
        Err(PlatformError::Unsupported("cycle_keyboard_layout"))
    }
}

} // verus!
