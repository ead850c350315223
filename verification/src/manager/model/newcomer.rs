//! Adding windows and removing them.
use super::super::ids::{lemma_push, lemma_without, without};
use super::super::store::Remembered;
use super::super::{monitors_ok, windows_ok, State};
use super::drag::remembered_after;
use super::{
    covering, first_monitor, geometries, lemma_first_monitor, lemma_monitor_fits, placed_in, primary_of, with_id,
};
use crate::geometry::Rect;
use crate::ieee::Float32;
use crate::monitor::Monitor;
use crate::placement::{centre_of, placed};
use crate::rules::{WindowRule, WindowRuleActions};
use crate::theme::ThemeConfig;
use crate::window::{Window, OPAQUE};
use vstd::prelude::*;

verus! {

/// What the first rule that matches the window asks for.
pub open spec fn ruled(rules: Seq<WindowRule>, w: Window) -> Option<WindowRuleActions>
    decreases rules.len(),
{
    if rules.len() == 0 {
        None
    } else if rules[0].matcher.covers(w) {
        Some(rules[0].actions)
    } else {
        ruled(rules.skip(1), w)
    }
}

/// A window with the theme's defaults.
pub open spec fn dressed(w: Window, theme: ThemeConfig) -> Window {
    Window {
        border_color: theme.default_border_color,
        border_width: theme.default_border_width,
        corner_radius: theme.default_corner_radius,
        decorated: theme.default_decorated,
        ..w
    }
}

/// `new`, or `old` where nothing is asked for.
pub open spec fn asked<T>(new: Option<T>, old: T) -> T {
    match new {
        Some(v) => v,
        None => old,
    }
}

/// An opacity from 0 to 1.
pub open spec fn within_unit(v: Float32) -> Float32 {
    if v.less(Float32 { bits: 0 }) {
        Float32 { bits: 0 }
    } else if (Float32 { bits: OPAQUE }).less(v) {
        Float32 { bits: OPAQUE }
    } else {
        v
    }
}

/// A window with what a rule asks of its looks and behaviour.
pub open spec fn acted(w: Window, a: WindowRuleActions) -> Window {
    Window {
        floating: asked(a.floating, w.floating),
        decorated: asked(a.decorated, w.decorated),
        border_color: asked(a.border_color, w.border_color),
        border_width: asked(a.border_width, w.border_width),
        corner_radius: asked(a.corner_radius, w.corner_radius),
        always_on_top: asked(a.pinned, w.always_on_top),
        opacity: match a.opacity {
            Some(v) => within_unit(v),
            None => w.opacity,
        },
        resize_margin: match a.resize_margin {
            Some(m) => Some(m),
            None => w.resize_margin,
        },
        aspect_ratio: match a.aspect_ratio {
            Some(r) => Some(r),
            None => w.aspect_ratio,
        },
        ..w
    }
}

/// Whether a window has said what it is.
pub open spec fn is_known(w: Window) -> bool {
    w.title@.len() > 0 || w.app_id@.len() > 0
}

pub open spec fn rect_of(r: Remembered) -> Rect {
    Rect { x: r.0, y: r.1, width: r.2, height: r.3 }
}

/// How a new window opens.
#[derive(Debug, Clone, Copy, PartialEq, Eq, Structural)]
pub struct Opening {
    pub geometry: Rect,
    pub monitor: u32,
    /// Whether the size is a guess.
    pub provisional: bool,
    /// Whether a step of the cascade was taken.
    pub steps: bool,
}

impl State {
    /// The monitor that a new window belongs on: the one the pointer is over,
    /// or the focused window's, or the primary one.
    pub open spec fn target_monitor(self) -> Option<Monitor> {
        let pointed = match self.pointer_monitor {
            Some(id) => first_monitor(self.monitors, with_id(id)),
            None => None,
        };
        let focused = match self.focused {
            Some(f) => first_monitor(self.monitors, with_id(self.windows[f].monitor)),
            None => None,
        };
        match (pointed, focused) {
            (Some(m), _) => Some(m),
            (None, Some(m)) => Some(m),
            (None, None) => primary_of(self.monitors),
        }
    }

    /// The position and size that the window opens with, if its app's are
    /// known. A dialog is not what they are known of.
    pub open spec fn recalled(self, w: Window) -> Option<Remembered> {
        if w.app_id@.len() > 0 && !w.is_dialog && self.remembered.contains_key(w.app_id@) {
            Some(self.remembered[w.app_id@])
        } else {
            None
        }
    }

    /// Whether the layout of a workspace places the windows on it.
    pub open spec fn tiles(self, workspace: usize) -> bool {
        self.workspace_exists(workspace) && self.workspace_with(workspace).layout == "tiling"@
    }

    /// The geometries of the windows on a workspace.
    pub open spec fn occupied(self, workspace: usize) -> Seq<Rect> {
        geometries(self.created.filter(placed_in(self.windows, workspace)), self.windows)
    }

    /// Where a new window of a size goes on a monitor.
    pub open spec fn opening_place(self, w: Window, m: Monitor, size: (u32, u32)) -> Rect {
        if self.tiles(w.workspace) {
            Rect { width: size.0, height: size.1, ..w.geometry }
        } else if w.is_dialog {
            centre_of(m.geometry, size.0, size.1)
        } else {
            placed(m.geometry, self.occupied(w.workspace), size, self.settings.placement, self.cascade_step)
        }
    }

    /// Whether a place on a workspace has to be found beside other windows.
    pub open spec fn crowded(self, w: Window) -> bool {
        !self.tiles(w.workspace) && !w.is_dialog && self.occupied(w.workspace).len() > 0
    }

    /// Whether a place has to be found for a new window beside other windows.
    pub open spec fn seeks_place(self, w: Window) -> bool {
        &&& self.target_monitor() is Some
        &&& self.recalled(w) matches Some(r) ==> first_monitor(self.monitors, covering(r.0, r.1)) is None
        &&& self.crowded(w)
    }

    /// How a new window opens. One that its app had on a screen that is there
    /// opens exactly so; otherwise only the size is kept.
    pub open spec fn opening(self, w: Window) -> Opening {
        let as_is = Opening { geometry: w.geometry, monitor: w.monitor, provisional: false, steps: false };
        match self.target_monitor() {
            Some(m) => match self.recalled(w) {
                Some(r) => match first_monitor(self.monitors, covering(r.0, r.1)) {
                    Some(home) => Opening { geometry: rect_of(r), monitor: home.id, ..as_is },
                    None => Opening {
                        geometry: self.opening_place(w, m, (r.2, r.3)),
                        monitor: m.id,
                        provisional: false,
                        steps: !self.tiles(w.workspace) && !w.is_dialog,
                    },
                },
                None => Opening {
                    geometry: self.opening_place(w, m, (w.geometry.width, w.geometry.height)),
                    monitor: m.id,
                    provisional: !self.tiles(w.workspace),
                    steps: !self.tiles(w.workspace) && !w.is_dialog,
                },
            },
            None => as_is,
        }
    }

    /// A new window in its place.
    pub open spec fn opened(self, w: Window) -> Window {
        let o = self.opening(w);
        Window { geometry: o.geometry, monitor: o.monitor, size_is_provisional: o.provisional, ..w }
    }

    /// The step of the cascade after the window.
    pub open spec fn step_after(self, w: Window) -> u32 {
        if !self.opening(w).steps {
            self.cascade_step
        } else if self.cascade_step == u32::MAX {
            0
        } else {
            (self.cascade_step + 1) as u32
        }
    }

    /// A new window with the theme's defaults and what the first rule that
    /// matches asks for, on its workspace.
    pub open spec fn prepared(self, window: Window) -> Window {
        let w = dressed(window, self.settings.theme);
        match ruled(self.rules, w) {
            Some(a) => Window { rules_applied: true, workspace: asked(a.workspace, self.current), ..acted(w, a) },
            None => Window { rules_applied: is_known(w), workspace: self.current, ..w },
        }
    }

    /// What the rules ask of a new window.
    pub open spec fn rule_for(self, window: Window) -> Option<WindowRuleActions> {
        ruled(self.rules, dressed(window, self.settings.theme))
    }

    /// Whether a new window opens maximized.
    pub open spec fn opens_maximized(self, window: Window) -> bool {
        match self.rule_for(window) {
            Some(a) => asked(a.maximized, self.settings.phone_mode && a.floating != Some(true)),
            None => self.settings.phone_mode,
        }
    }

    /// A new window as it is added.
    pub open spec fn newcomer(self, window: Window) -> Window {
        let w = self.opened(self.prepared(window));
        let geometry = match self.rule_for(window) {
            Some(a) => a.geometry,
            None => None,
        };
        Window {
            geometry: asked(geometry, w.geometry),
            size_is_provisional: w.size_is_provisional && geometry is None && !self.opens_maximized(window),
            ..w
        }
    }

    /// A window put in, focused and on top of the stack. Where there is one with
    /// its id, the id stays in its place in the stack as well.
    pub open spec fn joined(self, id: u64, w: Window, step: u32) -> State {
        State {
            windows: self.windows.insert(id, w),
            created: if self.has(id) { self.created } else { self.created.push(id) },
            order: self.order.push(id),
            focused: Some(id),
            cascade_step: step,
            ..self
        }.restack()
    }

    /// A window added.
    pub open spec fn added(self, window: Window) -> State {
        let s = self.joined(window.id, self.newcomer(window), self.step_after(self.prepared(window)));
        if self.opens_maximized(window) {
            s.maximize_toggled(window.id)
        } else {
            s
        }
    }

    // ---- Rules that come late ---------------------------------------------------------

    /// Whether the rules have yet to be tried on a window that has said what
    /// it is.
    pub open spec fn rules_pending(self, id: u64) -> bool {
        self.has(id) && !self.windows[id].rules_applied && is_known(self.windows[id])
    }

    /// The rules tried on such a window. One that is to stay on top goes there.
    pub open spec fn rules_reapplied(self, id: u64) -> State {
        let w = self.windows[id];
        if self.rules_pending(id) {
            match ruled(self.rules, w) {
                Some(a) => {
                    let changed = Window {
                        rules_applied: true,
                        geometry: asked(a.geometry, w.geometry),
                        workspace: asked(a.workspace, w.workspace),
                        ..acted(w, a)
                    };
                    let s = self.with_window(id, changed).restack();
                    if a.maximized == Some(true) {
                        s.maximize_toggled(id)
                    } else {
                        s
                    }
                },
                None => self.with_window(id, Window { rules_applied: true, ..w }),
            }
        } else {
            self
        }
    }

    // ---- Leaving ------------------------------------------------------------------------

    /// Without the window. What its app's next window opens with is noted,
    /// unless it covered its monitor.
    pub open spec fn without_window(self, id: u64) -> State {
        let w = self.windows[id];
        State {
            windows: self.windows.remove(id),
            created: without(self.created, id),
            order: without(self.order, id),
            focused: if self.focused == Some(id) { None } else { self.focused },
            remembered: if w.maximized || w.fullscreen {
                self.remembered
            } else {
                remembered_after(self.remembered, w)
            },
            ..self
        }
    }

    /// The focus moved on after the focused window of a workspace has gone: to
    /// the topmost window that is left there. Only where that is wanted does it
    /// leave the workspace, for the topmost window of all.
    pub open spec fn focus_passed_on(self, workspace: usize) -> State {
        match self.top_of(workspace) {
            Some(id) => State { focused: Some(id), ..self },
            None => if self.settings.close_focus_follows_workspace && self.order.len() > 0 {
                self.focused_on(self.order.last())
            } else {
                self
            },
        }
    }

    /// A window removed.
    pub open spec fn removed(self, id: u64) -> State {
        if self.has(id) {
            let s = self.without_window(id);
            if self.focused == Some(id) {
                s.focus_passed_on(self.windows[id].workspace)
            } else {
                s
            }
        } else {
            self
        }
    }
}

/// Putting a window in keeps the state well-formed, also before the windows
/// that stay on top are moved there.
pub proof fn lemma_joined_before_wf(s: State, id: u64, w: Window, step: u32)
    requires
        s.wf(),
    ensures
        (State {
            windows: s.windows.insert(id, w),
            created: if s.has(id) { s.created } else { s.created.push(id) },
            order: s.order.push(id),
            focused: Some(id),
            cascade_step: step,
            ..s
        }).wf(),
{
    reveal(windows_ok);
    lemma_push(s.order, id);
    if !s.has(id) {
        assert(!s.created.contains(id));
        lemma_push(s.created, id);
    }
}

impl State {
    /// The monitor that a new window belongs on fits the coordinates.
    pub proof fn lemma_target_fits(self)
        requires
            self.wf(),
        ensures
            self.target_monitor() matches Some(m) ==> m.fits(),
            self.focused matches Some(f) ==> self.has(f),
    {
        reveal(windows_ok);
        reveal(monitors_ok);
        lemma_monitor_fits(self.monitors, 0);
        if let Some(id) = self.pointer_monitor {
            lemma_first_monitor(self.monitors, with_id(id));
        }
        if let Some(f) = self.focused {
            lemma_first_monitor(self.monitors, with_id(self.windows[f].monitor));
        }
    }
}

/// Taking a window out keeps the state well-formed.
pub proof fn lemma_without_window_wf(s: State, id: u64)
    requires
        s.wf(),
    ensures
        s.without_window(id).wf(),
{
    reveal(windows_ok);
    lemma_without(s.created, id);
    lemma_without(s.order, id);
}

} // verus!
