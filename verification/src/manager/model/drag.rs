//! Dragging and resizing windows with the pointer.
use super::super::ids::position_in;
use super::super::store::{Remembered, ResizeView, Settings};
use super::super::{DragState, State};
use super::{first_monitor, settled, showing, tiled_on};
use crate::geometry::{int_max, Rect};
use crate::ieee::Float32;
use crate::layout::{masters, Layout, MasterStackLayout, TilingConfig};
use crate::monitor::Monitor;
use crate::num::to_i32_range;
use crate::placement::{snap_target, SNAP_FLYOUT_EDGE};
use crate::window::{ResizeEdge, Window};
use vstd::prelude::*;

verus! {

/// How much of a dragged window stays on the desktop, in pixels.
pub const KEPT_VISIBLE: i32 = 40;

/// The encodings of the least and the greatest master ratio that dragging can
/// set: 0.1 and 0.9.
pub const LEAST_RATIO: u32 = 0x3dcc_cccd;

pub const GREATEST_RATIO: u32 = 0x3f66_6666;

/// `v`, or the end of `low..=high` that it lies beyond.
pub open spec fn kept_between(v: int, low: int, high: int) -> int {
    if v < low {
        low
    } else if v > high {
        high
    } else {
        v
    }
}

/// Where a window is after being dragged from `orig` by `(dx, dy)`. A strip of
/// it stays on the desktop, and its top does not leave it.
pub open spec fn dragged_to(orig: Rect, dx: int, dy: int, desktop: Option<Rect>) -> Rect {
    let x = orig.x + dx;
    let y = orig.y + dy;
    match desktop {
        Some(b) => Rect {
            x: to_i32_range(
                kept_between(x, b.x - orig.width + KEPT_VISIBLE, b.right_edge() - KEPT_VISIBLE),
            ) as i32,
            y: to_i32_range(kept_between(y, b.y as int, b.bottom_edge() - KEPT_VISIBLE)) as i32,
            ..orig
        },
        None => Rect { x: to_i32_range(x) as i32, y: to_i32_range(y) as i32, ..orig },
    }
}

/// Whether the strip of a window that stays visible has room on the desktop.
pub open spec fn has_room(orig: Rect, desktop: Option<Rect>) -> bool {
    desktop matches Some(b) ==> b.width + orig.width >= 2 * KEPT_VISIBLE && b.height >= KEPT_VISIBLE
}

/// A window at `geometry`, on the monitor that shows it, if one does.
pub open spec fn placed_at(w: Window, geometry: Rect, monitors: Seq<Monitor>) -> Window {
    Window {
        geometry,
        monitor: match first_monitor(monitors, showing(geometry)) {
            Some(m) => m.id,
            None => w.monitor,
        },
        ..w
    }
}

/// What holds of the monitors whose top edge a point is near to, or above.
pub open spec fn top_edge_near(x: i32, y: i32) -> spec_fn(Monitor) -> bool {
    |m: Monitor|
        m.full_geometry.x <= x < m.full_geometry.right_edge() && y < m.full_geometry.bottom_edge() && y
            - m.full_geometry.y <= SNAP_FLYOUT_EDGE
}

/// What an app's next window opens with after this one.
pub open spec fn remembered_after(
    remembered: Map<Seq<char>, Remembered>,
    w: Window,
) -> Map<Seq<char>, Remembered> {
    if w.app_id@.len() > 0 {
        remembered.insert(w.app_id@, (w.geometry.x, w.geometry.y, w.geometry.width, w.geometry.height))
    } else {
        remembered
    }
}

/// A drag of the boundary between the master and the stack column: how far, in
/// an area of what width, and from what ratio.
#[derive(Debug, Clone, Copy, PartialEq, Eq, Structural)]
pub struct RatioDrag {
    pub dx: i64,
    /// At least 1.
    pub area_width: u32,
    pub from: Float32,
}

impl State {
    // ---- Dragging ------------------------------------------------------------------

    pub open spec fn drag_started(self, id: u64, x: i32, y: i32) -> State {
        if self.has(id) {
            State {
                drag: Some(
                    DragState {
                        window: id,
                        start_x: x,
                        start_y: y,
                        orig: self.windows[id].geometry,
                        last_x: x,
                        last_y: y,
                    },
                ),
                ..self
            }.focused_on(id)
        } else {
            self
        }
    }

    /// The area that the monitors span.
    pub open spec fn desktop(self) -> Option<Rect> {
        super::desktop_of(self.monitors)
    }

    /// Whether a drag that is on has room for the strip that stays visible.
    pub open spec fn drag_has_room(self) -> bool {
        self.drag matches Some(d) ==> has_room(d.orig, self.desktop())
    }

    /// The window moved with the pointer.
    pub open spec fn dragged(self, x: i32, y: i32) -> State {
        match self.drag {
            Some(d) => {
                let s = State { drag: Some(DragState { last_x: x, last_y: y, ..d }), ..self };
                let to = dragged_to(d.orig, x - d.start_x, y - d.start_y, self.desktop());
                if self.has(d.window) {
                    s.with_window(d.window, placed_at(self.windows[d.window], to, self.monitors))
                } else {
                    s
                }
            },
            None => self,
        }
    }

    /// The zone that a window with the geometry would snap to on a monitor.
    #[verifier::opaque]
    pub open spec fn zone_at(self, geometry: Rect, monitor: u32) -> Option<Rect> {
        match self.monitor_for(monitor) {
            Some(m) => snap_target(geometry, m.geometry, self.settings.placement.snap_threshold as int),
            None => None,
        }
    }

    /// The zone that a window would snap to.
    pub open spec fn zone_for(self, w: Window) -> Option<Rect> {
        self.zone_at(w.geometry, w.monitor)
    }

    /// The window as it is when it is let go: on the monitor that shows it, and
    /// in a zone if it is near one.
    pub open spec fn let_go(self, w: Window) -> Window {
        let on = placed_at(w, w.geometry, self.monitors);
        match self.zone_for(on) {
            Some(zone) => Window { geometry: zone, ..on },
            None => on,
        }
    }

    /// Only the geometry and the monitor of a window change when it is let go.
    pub proof fn lemma_let_go(self, w: Window)
        ensures
            ({
                let monitor = match first_monitor(self.monitors, showing(w.geometry)) {
                    Some(m) => m.id,
                    None => w.monitor,
                };
                let geometry = match self.zone_at(w.geometry, monitor) {
                    Some(zone) => zone,
                    None => w.geometry,
                };
                self.let_go(w) == (Window { geometry, monitor, ..w })
            }),
    {
    }

    pub open spec fn drag_ended(self) -> State {
        match self.drag {
            Some(d) => {
                let s = State { drag: None, ..self };
                if self.has(d.window) {
                    let w = s.let_go(self.windows[d.window]);
                    State { remembered: remembered_after(self.remembered, w), ..s.with_window(d.window, w) }
                } else {
                    s
                }
            },
            None => self,
        }
    }

    /// Where the dragged window would snap to now.
    pub open spec fn snap_preview(self) -> Option<Rect> {
        match self.drag {
            Some(d) => if self.has(d.window) { self.zone_for(self.windows[d.window]) } else { None },
            None => None,
        }
    }

    // ---- Resizing --------------------------------------------------------------------

    /// The windows that share the boundary between the master and the stack
    /// column, if that is what the edge of the window is: the right edge of a
    /// master window or the left one of a stack window.
    pub open spec fn ratio_drag(self, id: u64, edge: ResizeEdge) -> Option<Seq<u64>> {
        let w = self.windows[id];
        let ids = self.order.filter(tiled_on(self.windows, w.workspace, w.monitor));
        let pos = position_in(ids, id);
        let count = masters(ids.len() as int, self.settings.tiling);
        if !w.floating && !w.fullscreen && self.workspace_exists(w.workspace) && self.workspace_with(
            w.workspace,
        ).layout == "tiling"@ && pos >= 0 && ids.len() > count && ((pos < count && edge.rightward()) || (pos
            >= count && edge.leftward())) {
            Some(ids)
        } else {
            None
        }
    }

    pub open spec fn resize_started(self, id: u64, edge: ResizeEdge, x: i32, y: i32) -> State {
        if self.has(id) {
            State {
                resize: Some(
                    ResizeView {
                        window: id,
                        edge,
                        start_x: x,
                        start_y: y,
                        orig: self.windows[id].geometry,
                        orig_master_ratio: self.settings.tiling.master_ratio,
                        ratio_drag_ids: self.ratio_drag(id, edge),
                    },
                ),
                ..self
            }.focused_on(id)
        } else {
            self
        }
    }

    /// The geometry of a window being resized to the pointer.
    pub open spec fn resized_to(self, r: ResizeView, x: i32, y: i32) -> Rect {
        let w = self.windows[r.window];
        let moved = r.edge.dragged(r.orig, x - r.start_x, y - r.start_y, w.min_size.0, w.min_size.1);
        match w.aspect_ratio {
            Some(ratio) => r.edge.in_ratio(moved, ratio, w.min_size.0, w.min_size.1),
            None => moved,
        }
    }

    /// The window resized to the pointer. A drag of the boundary between
    /// columns changes no window by itself.
    pub open spec fn resize_moved(self, x: i32, y: i32) -> State {
        match self.resize {
            Some(r) => if r.ratio_drag_ids is None && self.has(r.window) {
                self.with_window(
                    r.window,
                    placed_at(self.windows[r.window], self.resized_to(r, x, y), self.monitors),
                )
            } else {
                self
            },
            None => self,
        }
    }

    /// The drag of the boundary between columns that is on, if there is one:
    /// the windows, and the monitor.
    pub open spec fn boundary_drag(self) -> Option<(Seq<u64>, Monitor)> {
        match self.resize {
            Some(r) => match (r.ratio_drag_ids, self.monitor_for(self.windows[r.window].monitor)) {
                (Some(ids), Some(m)) => if self.has(r.window) { Some((ids, m)) } else { None },
                _ => None,
            },
            None => None,
        }
    }

    /// What the pointer asks of the boundary between columns.
    pub open spec fn ratio_asked(self, x: i32) -> Option<RatioDrag> {
        match self.boundary_drag() {
            Some((_, m)) => {
                let r = self.resize->Some_0;
                Some(
                    RatioDrag {
                        dx: (x - r.start_x) as i64,
                        area_width: int_max(
                            m.geometry.shrunk(self.settings.tiling.gap_outer).width as int,
                            1,
                        ) as u32,
                        from: r.orig_master_ratio,
                    },
                )
            },
            None => None,
        }
    }

    /// The boundary between columns moved to a ratio, within limits, and the
    /// windows with it.
    pub open spec fn ratio_set(self, ratio: Float32) -> State {
        match self.boundary_drag() {
            Some((ids, m)) => {
                let tiling = TilingConfig { master_ratio: within_ratios(ratio), ..self.settings.tiling };
                State {
                    settings: Settings { tiling, ..self.settings },
                    windows: settled(self.windows, MasterStackLayout.slots(ids, m, tiling)),
                    ..self
                }
            },
            None => self,
        }
    }

    pub open spec fn resize_ended(self) -> State {
        match self.resize {
            Some(r) => State {
                resize: None,
                remembered: if self.has(r.window) {
                    remembered_after(self.remembered, self.windows[r.window])
                } else {
                    self.remembered
                },
                ..self
            },
            None => self,
        }
    }
}

/// The ratio, kept where both columns have a width.
pub open spec fn within_ratios(ratio: Float32) -> Float32 {
    let least = Float32 { bits: LEAST_RATIO };
    let greatest = Float32 { bits: GREATEST_RATIO };
    if ratio.less(least) {
        least
    } else if greatest.less(ratio) {
        greatest
    } else {
        ratio
    }
}

} // verus!
