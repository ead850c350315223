//! Dragging and resizing windows with the pointer.
use super::ids::{lemma_position, position};
use super::layout::slot_list;
use super::model::drag::{
    dragged_to, kept_between, placed_at, top_edge_near, within_ratios, RatioDrag, GREATEST_RATIO, KEPT_VISIBLE,
    LEAST_RATIO,
};
use super::model::{first_monitor, lemma_settled_as, settled, showing};
use super::monitors::{desktop, lemma_look_past, monitor_showing};
use super::store::Settings;
use super::{DragState, ResizeState, State, WindowManager};
use crate::geometry::{int_max, Rect};
use crate::ieee::Float32;
use crate::layout::{Layout, MasterStackLayout, TilingConfig};
use crate::monitor::Monitor;
use crate::num::saturate_i32;
use crate::placement::{SmartPlacement, SNAP_FLYOUT_EDGE};
use crate::text::same;
use crate::window::{ResizeEdge, Window, WindowId};
use std::collections::HashMap;
use vstd::prelude::*;

verus! {

/// `v`, or the end of `low..=high` that it lies beyond.
fn keep_between(v: i64, low: i64, high: i64) -> (r: i64)
    ensures
        r == kept_between(v as int, low as int, high as int),
{
    if v < low {
        low
    } else if v > high {
        high
    } else {
        v
    }
}

/// Where a window is after being dragged from `orig` by `(dx, dy)`.
fn drag_place(orig: &Rect, dx: i64, dy: i64, area: Option<Rect>) -> (r: Rect)
    requires
        -0x1_0000_0000 <= dx <= 0x1_0000_0000,
        -0x1_0000_0000 <= dy <= 0x1_0000_0000,
    ensures
        r == dragged_to(*orig, dx as int, dy as int, area),
{
    let x: i64 = orig.x as i64 + dx;
    let y: i64 = orig.y as i64 + dy;
    let (x, y): (i64, i64) = match area {
        Some(b) => {
            let low: i64 = b.x as i64 - orig.width as i64 + KEPT_VISIBLE as i64;
            (
                keep_between(x, low, b.right_wide() - KEPT_VISIBLE as i64),
                keep_between(y, b.y as i64, b.bottom_wide() - KEPT_VISIBLE as i64),
            )
        },
        None => (x, y),
    };
    Rect::new(saturate_i32(x), saturate_i32(y), orig.width, orig.height)
}

/// Puts a window at `geometry`, on the monitor that shows it, if one does.
fn put_at(w: &mut Window, geometry: Rect, on: Option<u32>, monitors: Ghost<Seq<Monitor>>)
    requires
        on == (match first_monitor(monitors@, showing(geometry)) {
            Some(m) => Some(m.id),
            None => None,
        }),
    ensures
        *final(w) == placed_at(*old(w), geometry, monitors@),
{
    w.geometry = geometry;
    if let Some(id) = on {
        w.monitor = id;
    }
}

/// The first monitor whose top edge the point is near to, or above.
fn monitor_at_top<'a>(monitors: &'a [Monitor], x: i32, y: i32) -> (found: Option<&'a Monitor>)
    ensures
        match found {
            Some(m) => first_monitor(monitors@, top_edge_near(x, y)) == Some(*m),
            None => first_monitor(monitors@, top_edge_near(x, y)) is None,
        },
{
    let ghost p = top_edge_near(x, y);
    let mut i: usize = 0;
    assert(monitors@.skip(0) =~= monitors@);
    while i < monitors.len()
        invariant
            i <= monitors.len(),
            p == top_edge_near(x, y),
            first_monitor(monitors@, p) == first_monitor(monitors@.skip(i as int), p),
        decreases monitors.len() - i,
    {
        proof {
            lemma_look_past(monitors@, p, i as int);
        }
        let g: &Rect = &monitors[i].full_geometry;
        if x >= g.x && (x as i64) < g.right_wide() && (y as i64) < g.bottom_wide() && y as i64 - g.y as i64
            <= SNAP_FLYOUT_EDGE as i64 {
            return Some(&monitors[i]);
        }
        i = i + 1;
    }
    None
}

impl WindowManager {
    /// The monitor that shows a rectangle.
    fn shown_by(&self, r: &Rect) -> (on: Option<u32>)
        ensures
            on == (match first_monitor(self@.monitors, showing(*r)) {
                Some(m) => Some(m.id),
                None => None,
            }),
    {
        match monitor_showing(self.monitors(), r) {
            Some(m) => Some(m.id),
            None => None,
        }
    }

    /// Starts moving a window with the pointer.
    pub fn start_drag(&mut self, id: WindowId, x: i32, y: i32)
        requires
            old(self).wf(),
        ensures
            final(self)@ == old(self)@.drag_started(id, x, y),
            final(self).wf(),
    {
        if self.window(id).is_some() {
            let orig: Rect = self.geometry_of(id);
            self.put_drag(Some(DragState { window: id, start_x: x, start_y: y, orig, last_x: x, last_y: y }));
            self.focus_window(id);
        }
    }

    /// Moves the dragged window with the pointer. It belongs to the monitor
    /// that shows it at each step.
    pub fn update_drag(&mut self, x: i32, y: i32)
        requires
            old(self).wf(),
            old(self)@.drag_has_room(),
        ensures
            final(self)@ == old(self)@.dragged(x, y),
            final(self).wf(),
    {
        let d: DragState = match self.drag_state() {
            Some(d) => d,
            None => {
                return;
            },
        };
        let area: Option<Rect> = desktop(self.monitors());
        let to: Rect = drag_place(&d.orig, x as i64 - d.start_x as i64, y as i64 - d.start_y as i64, area);
        let on: Option<u32> = self.shown_by(&to);
        self.put_drag(
            Some(
                DragState { window: d.window, start_x: d.start_x, start_y: d.start_y, orig: d.orig, last_x: x, last_y: y },
            ),
        );
        let ghost ms = self@.monitors;
        if let Some(w) = self.window_mut(d.window) {
            put_at(w, to, on, Ghost(ms));
        }
    }

    /// The zone that a window would snap to.
    fn snap_for(&self, geometry: Rect, monitor: u32) -> (r: Option<Rect>)
        requires
            self.wf(),
        ensures
            r == self@.zone_at(geometry, monitor),
    {
        reveal(State::zone_at);
        match self.monitor_for(monitor) {
            Some(m) => SmartPlacement::snap_zone(geometry, m, &self.placement_config()),
            None => None,
        }
    }

    /// Lets the dragged window go. Near an edge of its monitor it snaps into a
    /// zone. Where it ends up is where the app's next window opens.
    pub fn end_drag(&mut self)
        requires
            old(self).wf(),
        ensures
            final(self)@ == old(self)@.drag_ended(),
            final(self).wf(),
    {
        let d: DragState = match self.drag_state() {
            Some(d) => d,
            None => {
                return;
            },
        };
        self.put_drag(None);
        if self.window(d.window).is_some() {
            self.drop_window(d.window);
            self.remember(d.window);
        }
    }

    /// Puts a window where it is let go: on the monitor that shows it, and in
    /// a zone if it is near one.
    fn drop_window(&mut self, id: WindowId)
        requires
            old(self).wf(),
            old(self)@.has(id),
        ensures
            final(self)@ == old(self)@.with_window(id, old(self)@.let_go(old(self)@.windows[id])),
            final(self).wf(),
    {
        let (to, monitor): (Rect, u32) = self.drop_place(id);
        self.put_place(id, to, monitor);
    }

    /// Where a window ends up when it is let go, and on which monitor.
    fn drop_place(&self, id: WindowId) -> (r: (Rect, u32))
        requires
            self.wf(),
            self@.has(id),
        ensures
            self@.let_go(self@.windows[id]) == (Window { geometry: r.0, monitor: r.1, ..self@.windows[id] }),
    {
        proof {
            self@.lemma_let_go(self@.windows[id]);
        }
        let here: Rect = self.geometry_of(id);
        let monitor: u32 = match self.shown_by(&here) {
            Some(m) => m,
            None => self.monitor_of(id),
        };
        match self.snap_for(here, monitor) {
            Some(zone) => (zone, monitor),
            None => (here, monitor),
        }
    }

    /// Where the dragged window would snap to if it were let go now.
    pub fn drag_snap_preview(&self) -> (r: Option<Rect>)
        requires
            self.wf(),
        ensures
            r == self@.snap_preview(),
    {
        match self.drag_state() {
            Some(d) => match self.window(d.window) {
                Some(w) => self.snap_for(w.geometry, w.monitor),
                None => None,
            },
            None => None,
        }
    }

    /// The monitor whose top edge the pointer is near to during a drag.
    pub fn drag_top_edge_monitor(&self) -> (r: Option<&Monitor>)
        requires
            self.wf(),
        ensures
            match r {
                Some(m) => self@.drag matches Some(d) && first_monitor(
                    self@.monitors,
                    top_edge_near(d.last_x, d.last_y),
                ) == Some(*m),
                None => self@.drag matches Some(d) ==> first_monitor(
                    self@.monitors,
                    top_edge_near(d.last_x, d.last_y),
                ) is None,
            },
    {
        let d: DragState = match self.drag_state() {
            Some(d) => d,
            None => {
                return None;
            },
        };
        monitor_at_top(self.monitors(), d.last_x, d.last_y)
    }

    pub fn is_dragging(&self) -> (r: bool)
        ensures
            r == (self@.drag is Some),
    {
        self.drag_state().is_some()
    }

    /// The window being dragged.
    pub fn dragged_window(&self) -> (r: Option<WindowId>)
        ensures
            r == (match self@.drag {
                Some(d) => Some(d.window),
                None => None,
            }),
    {
        match self.drag_state() {
            Some(d) => Some(d.window),
            None => None,
        }
    }
}

impl WindowManager {
    /// The windows that share the boundary between the master and the stack
    /// column, if that is what the edge of the window is. To be asked before
    /// the window is raised: that moves it in the stacking order, by which the
    /// columns are filled.
    fn tiling_ratio_drag(&self, id: WindowId, edge: ResizeEdge) -> (r: Option<Vec<WindowId>>)
        requires
            self.wf(),
            self@.has(id),
        ensures
            match r {
                Some(ids) => self@.ratio_drag(id, edge) == Some(ids@),
                None => self@.ratio_drag(id, edge) is None,
            },
    {
        let (workspace, monitor): (usize, u32) = match self.window(id) {
            Some(w) => if w.floating || w.fullscreen {
                return None;
            } else {
                (w.workspace, w.monitor)
            },
            None => {
                return None;
            },
        };
        let tiling: bool = match self.layout_name(workspace) {
            Some(l) => same(l, "tiling"),
            None => false,
        };
        if !tiling {
            return None;
        }
        let ids: Vec<u64> = self.tiled_ids(workspace, monitor);
        proof {
            lemma_position(ids@, id);
        }
        let pos: usize = match position(&ids, id) {
            Some(p) => p,
            None => {
                return None;
            },
        };
        proof {
            assert(ids@[pos as int] == id);
            assert(ids@.contains(id));
        }
        let wanted: usize = self.tiling_config().master_count;
        let wanted: usize = if wanted >= 1 { wanted } else { 1 };
        let count: usize = if wanted <= ids.len() { wanted } else { ids.len() };
        if ids.len() > count && ((pos < count && edge.has_right()) || (pos >= count && edge.has_left())) {
            Some(ids)
        } else {
            None
        }
    }

    /// Starts resizing a window with the pointer.
    pub fn start_resize(&mut self, id: WindowId, edge: ResizeEdge, x: i32, y: i32)
        requires
            old(self).wf(),
        ensures
            final(self)@ == old(self)@.resize_started(id, edge, x, y),
            final(self).wf(),
    {
        if self.window(id).is_some() {
            let ratio_drag_ids: Option<Vec<u64>> = self.tiling_ratio_drag(id, edge);
            let orig: Rect = self.geometry_of(id);
            let orig_master_ratio: Float32 = self.tiling_config().master_ratio;
            self.put_resize(
                Some(
                    ResizeState { window: id, edge, start_x: x, start_y: y, orig, orig_master_ratio, ratio_drag_ids },
                ),
            );
            self.focus_window(id);
        }
    }

    /// The width that the columns of a monitor share, at least 1.
    fn column_space(&self, m: &Monitor) -> (r: u32)
        ensures
            r == int_max(m.geometry.shrunk(self@.settings.tiling.gap_outer).width as int, 1),
    {
        let width: u32 = m.geometry.inset(self.tiling_config().gap_outer).width;
        if width >= 1 { width } else { 1 }
    }

    /// What the pointer asks of the boundary between columns, if that is what
    /// is being dragged.
    fn asked_of_boundary(&self, x: i32) -> (r: Option<RatioDrag>)
        requires
            self.wf(),
        ensures
            r == self@.ratio_asked(x),
    {
        let (window, start_x, from): (u64, i32, Float32) = match self.resize_state() {
            Some(r) => if r.ratio_drag_ids.is_some() {
                (r.window, r.start_x, r.orig_master_ratio)
            } else {
                return None;
            },
            None => {
                return None;
            },
        };
        let monitor: u32 = match self.window(window) {
            Some(w) => w.monitor,
            None => {
                return None;
            },
        };
        match self.monitor_for(monitor) {
            Some(m) => Some(
                RatioDrag { dx: x as i64 - start_x as i64, area_width: self.column_space(m), from },
            ),
            None => None,
        }
    }

    /// Resizes the window with the pointer. The boundary between the master and
    /// the stack column is a ratio, not one window's edge: where that is
    /// dragged, what is asked of the ratio is returned, to be handed to
    /// [`WindowManager::apply_ratio_drag`] as `from + dx / area_width`.
    pub fn update_resize(&mut self, x: i32, y: i32) -> (r: Option<RatioDrag>)
        requires
            old(self).wf(),
        ensures
            r == old(self)@.ratio_asked(x),
            final(self)@ == old(self)@.resize_moved(x, y),
            final(self).wf(),
    {
        let asked: Option<RatioDrag> = self.asked_of_boundary(x);
        let to: Option<(u64, Rect)> = self.resize_place(x, y);
        if let Some((id, rect)) = to {
            let on: Option<u32> = self.shown_by(&rect);
            let ghost ms = self@.monitors;
            if let Some(w) = self.window_mut(id) {
                put_at(w, rect, on, Ghost(ms));
            }
        }
        asked
    }

    /// The window that the pointer resizes, and the geometry it gets.
    fn resize_place(&self, x: i32, y: i32) -> (to: Option<(u64, Rect)>)
        ensures
            match to {
                Some((id, rect)) => self@.resize matches Some(r) && r.ratio_drag_ids is None && r.window == id
                    && self@.has(id) && rect == self@.resized_to(r, x, y),
                None => self@.resize matches Some(r) ==> r.ratio_drag_ids is Some || !self@.has(r.window),
            },
    {
        let r: &ResizeState = match self.resize_state() {
            Some(r) => r,
            None => {
                return None;
            },
        };
        if r.ratio_drag_ids.is_some() {
            return None;
        }
        let (least, ratio): ((u32, u32), Option<(u32, u32)>) = match self.window(r.window) {
            Some(w) => (w.min_size, w.aspect_ratio),
            None => {
                return None;
            },
        };
        let moved: Rect = r.edge.apply_wide_delta(
            r.orig,
            x as i64 - r.start_x as i64,
            y as i64 - r.start_y as i64,
            least.0,
            least.1,
        );
        let rect: Rect = match ratio {
            Some(ratio) => r.edge.apply_aspect_ratio(moved, ratio, least.0, least.1),
            None => moved,
        };
        Some((r.window, rect))
    }

    /// Moves the boundary between the master and the stack column to a ratio,
    /// no further than where a column would vanish, and all windows of the
    /// columns with it. Does nothing unless that boundary is being dragged.
    pub fn apply_ratio_drag(&mut self, ratio: Float32)
        requires
            old(self).wf(),
        ensures
            final(self)@ == old(self)@.ratio_set(ratio),
            final(self).wf(),
    {
        let (window, ids): (u64, Vec<u64>) = match self.resize_state() {
            Some(r) => match &r.ratio_drag_ids {
                Some(ids) => (r.window, ids.clone()),
                None => {
                    return;
                },
            },
            None => {
                return;
            },
        };
        let monitor: u32 = match self.window(window) {
            Some(w) => w.monitor,
            None => {
                return;
            },
        };
        let m: Monitor = match self.monitor_for(monitor) {
            Some(m) => m.clone(),
            None => {
                return;
            },
        };
        self.set_boundary(&ids, &m, ratio);
    }

    /// Tiles the windows on the monitor at a ratio.
    fn set_boundary(&mut self, ids: &Vec<u64>, m: &Monitor, ratio: Float32)
        requires
            old(self).wf(),
        ensures
            ({
                let s = old(self)@;
                let tiling = TilingConfig { master_ratio: within_ratios(ratio), ..s.settings.tiling };
                final(self)@ == (State {
                    settings: Settings { tiling, ..s.settings },
                    windows: settled(s.windows, MasterStackLayout.slots(ids@, *m, tiling)),
                    ..s
                })
            }),
            final(self).wf(),
    {
        let kept: Float32 = limit_ratio(ratio);
        self.put_master_ratio(kept);
        let cfg: TilingConfig = self.tiling_config();
        let slots: HashMap<u64, Rect> = MasterStackLayout.arrange(ids.as_slice(), m, &cfg);
        let list: Vec<(u64, Rect)> = slot_list(&slots);
        proof {
            lemma_settled_as(self@.windows, list@, slots@);
        }
        self.settle(&list);
    }

    /// Ends resizing. The size that the window has now is what the app's next
    /// window opens with.
    pub fn end_resize(&mut self)
        requires
            old(self).wf(),
        ensures
            final(self)@ == old(self)@.resize_ended(),
            final(self).wf(),
    {
        let window: u64 = match self.resize_state() {
            Some(r) => r.window,
            None => {
                return;
            },
        };
        if self.window(window).is_some() {
            self.remember(window);
        }
        self.put_resize(None);
    }

    pub fn is_resizing(&self) -> (r: bool)
        ensures
            r == (self@.resize is Some),
    {
        self.resize_state().is_some()
    }

    /// The window being resized.
    pub fn resizing_window(&self) -> (r: Option<WindowId>)
        ensures
            r == (match self@.resize {
                Some(r) => Some(r.window),
                None => None,
            }),
    {
        match self.resize_state() {
            Some(r) => Some(r.window),
            None => None,
        }
    }

    /// The edge being dragged.
    pub fn resize_edge(&self) -> (r: Option<ResizeEdge>)
        ensures
            r == (match self@.resize {
                Some(r) => Some(r.edge),
                None => None,
            }),
    {
        match self.resize_state() {
            Some(r) => Some(r.edge),
            None => None,
        }
    }
}

/// The ratio, kept where both columns have a width.
fn limit_ratio(ratio: Float32) -> (r: Float32)
    ensures
        r == within_ratios(ratio),
{
    ratio.clamped(Float32 { bits: LEAST_RATIO }, Float32 { bits: GREATEST_RATIO })
}

} // verus!
