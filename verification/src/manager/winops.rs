//! What happens to one window: minimizing, the scratchpad, maximizing, snapping,
//! fullscreen, floating, moving and resizing.
use super::ids::{lemma_filter_empty, lemma_filter_push};
use super::model::{animated, fullscreen_toggled, hidden_in, highest, maximize_toggled, snapped_to};
use super::{WindowManager};
use crate::geometry::Rect;
use crate::placement::SnapZoneKind;
use crate::window::{Window, WindowId};
use vstd::prelude::*;

verus! {

/// Notes where an animated move started.
fn note_move(w: &mut Window, from: Rect, animations: bool)
    ensures
        *final(w) == animated(*old(w), from, animations),
{
    if animations && w.geometry != from {
        w.anim_from = Some(from);
    }
}

/// Maximizes a window to `area`, or restores it.
fn maximize_step(w: &mut Window, area: Option<Rect>, animations: bool)
    ensures
        *final(w) == maximize_toggled(*old(w), area, animations),
{
    let from: Rect = w.geometry;
    if w.maximized {
        if let Some(restore) = w.restore_geometry {
            w.geometry = restore;
        }
        w.restore_geometry = None;
        w.maximized = false;
    } else if let Some(area) = area {
        w.restore_geometry = Some(w.geometry);
        w.geometry = area;
        w.maximized = true;
    }
    note_move(w, from, animations);
}

/// Makes a window fill `area` without decoration, or restores it.
fn fullscreen_step(w: &mut Window, area: Option<Rect>, animations: bool)
    ensures
        *final(w) == fullscreen_toggled(*old(w), area, animations),
{
    let from: Rect = w.geometry;
    if w.fullscreen {
        if let Some(restore) = w.restore_geometry {
            w.geometry = restore;
        }
        w.restore_geometry = None;
        w.fullscreen = false;
        w.decorated = match w.restore_decorated {
            Some(d) => d,
            None => true,
        };
        w.restore_decorated = None;
    } else if let Some(area) = area {
        // The geometry of a maximized window is not what it should go back to.
        if !w.maximized {
            w.restore_geometry = Some(w.geometry);
        }
        w.maximized = false;
        w.geometry = area;
        w.fullscreen = true;
        w.restore_decorated = Some(w.decorated);
        w.decorated = false;
    }
    note_move(w, from, animations);
}

/// Puts a window into a snap zone.
fn snap_step(w: &mut Window, zone: Rect, animations: bool)
    ensures
        *final(w) == snapped_to(*old(w), zone, animations),
{
    let from: Rect = w.geometry;
    if w.maximized || w.fullscreen {
        w.maximized = false;
        w.fullscreen = false;
        w.restore_geometry = None;
    }
    w.geometry = zone;
    note_move(w, from, animations);
}

impl WindowManager {
    /// Hides a window. If it was focused, the focus moves on.
    pub fn minimize_window(&mut self, id: WindowId)
        requires
            old(self).wf(),
        ensures
            final(self)@ == old(self)@.minimized(id),
            final(self).wf(),
    {
        if let Some(w) = self.window_mut(id) {
            w.minimized = true;
        }
        if self.focused_id() == Some(id) {
            self.cycle_focus(true);
        }
    }

    pub fn restore_window(&mut self, id: WindowId)
        requires
            old(self).wf(),
        ensures
            final(self)@ == old(self)@.restored(id),
            final(self).wf(),
    {
        if let Some(w) = self.window_mut(id) {
            w.minimized = false;
        }
    }

    /// Moves a window into the scratchpad pool and hides it. It floats from
    /// then on: tiling a window that comes and goes makes no sense.
    pub fn scratchpad_add(&mut self, id: WindowId)
        requires
            old(self).wf(),
        ensures
            final(self)@ == old(self)@.pooled(id).minimized(id),
            final(self).wf(),
    {
        if let Some(w) = self.window_mut(id) {
            w.scratchpad = true;
            w.floating = true;
        }
        self.minimize_window(id);
    }

    /// Takes a window out of the scratchpad pool, shown or hidden as it is.
    pub fn scratchpad_remove(&mut self, id: WindowId)
        requires
            old(self).wf(),
        ensures
            final(self)@ == old(self)@.unpooled(id),
            final(self).wf(),
    {
        if let Some(w) = self.window_mut(id) {
            w.scratchpad = false;
        }
    }

    /// The newest hidden window of the scratchpad pool.
    fn newest_hidden(&self) -> (r: Option<u64>)
        requires
            self.wf(),
        ensures
            r == self@.newest_hidden(),
            r matches Some(id) ==> self@.has(id),
    {
        let ids: &Vec<u64> = self.created_ids();
        let ghost p = hidden_in(self@.windows);
        let mut best: Option<u64> = None;
        let mut i: usize = 0;
        proof {
            self@.lemma_created_exist();
            lemma_filter_empty(p);
            assert(ids@.take(0) =~= Seq::<u64>::empty());
        }
        while i < ids.len()
            invariant
                i <= ids.len(),
                ids@ == self@.created,
                forall|k: int| 0 <= k < ids.len() ==> self@.has(#[trigger] ids[k]),
                p == hidden_in(self@.windows),
                best == highest(ids@.take(i as int).filter(p)),
                best matches Some(id) ==> self@.has(id),
            decreases ids.len() - i,
        {
            let id: u64 = ids[i];
            proof {
                assert(ids@.take(i + 1) =~= ids@.take(i as int).push(id));
                lemma_filter_push(ids@.take(i as int), id, p);
                let f = ids@.take(i as int).filter(p);
                assert(f.push(id).drop_last() =~= f);
            }
            let hidden: bool = match self.window(id) {
                Some(w) => w.scratchpad && w.minimized,
                None => false,
            };
            if hidden {
                best = match best {
                    Some(b) => if b < id { Some(id) } else { Some(b) },
                    None => Some(id),
                };
            }
            i = i + 1;
        }
        assert(ids@.take(ids.len() as int) =~= ids@);
        best
    }

    /// Toggles the scratchpad. Hides the focused window if it is a scratchpad
    /// window; otherwise the newest hidden one comes to the current workspace
    /// and is focused.
    pub fn scratchpad_show(&mut self)
        requires
            old(self).wf(),
        ensures
            final(self)@ == old(self)@.scratchpad_toggled(),
            final(self).wf(),
    {
        let shown: Option<u64> = match self.focused_window() {
            Some(w) => if w.scratchpad && !w.minimized {
                self.focused_id()
            } else {
                None
            },
            None => None,
        };
        match shown {
            Some(id) => self.minimize_window(id),
            None => {
                if let Some(id) = self.newest_hidden() {
                    let workspace: usize = self.current_workspace();
                    self.move_window_to_workspace(id, workspace);
                    self.restore_window(id);
                    self.focus_window(id);
                }
            },
        }
    }

    /// Maximizes a window over its monitor, or restores it.
    pub fn toggle_maximize(&mut self, id: WindowId)
        requires
            old(self).wf(),
        ensures
            final(self)@ == old(self)@.maximize_toggled(id),
            final(self).wf(),
    {
        if self.window(id).is_none() {
            return;
        }
        let monitor: u32 = self.monitor_of(id);
        let area: Option<Rect> = match self.monitor_for(monitor) {
            Some(m) => Some(m.maximize_geometry),
            None => None,
        };
        let animations: bool = self.animates();
        if let Some(w) = self.window_mut(id) {
            maximize_step(w, area, animations);
        }
    }

    /// Puts a window into a half or a quarter of its monitor. It is no longer
    /// maximized or fullscreen then.
    pub fn apply_snap_zone(&mut self, id: WindowId, zone: SnapZoneKind)
        requires
            old(self).wf(),
        ensures
            final(self)@ == old(self)@.snapped(id, zone),
            final(self).wf(),
    {
        if self.window(id).is_none() {
            return;
        }
        let monitor: u32 = self.monitor_of(id);
        let target: Option<Rect> = match self.monitor_for(monitor) {
            Some(m) => Some(zone.rect(m.geometry)),
            None => None,
        };
        let animations: bool = self.animates();
        if let Some(target) = target {
            if let Some(w) = self.window_mut(id) {
                snap_step(w, target, animations);
            }
        }
    }

    /// Makes a window cover its whole monitor without decoration, or restores
    /// what it was before. Excludes being maximized, and keeps the size from
    /// before that.
    pub fn toggle_fullscreen(&mut self, id: WindowId)
        requires
            old(self).wf(),
        ensures
            final(self)@ == old(self)@.fullscreen_toggled(id),
            final(self).wf(),
    {
        if self.window(id).is_none() {
            return;
        }
        let monitor: u32 = self.monitor_of(id);
        let area: Option<Rect> = match self.monitor_for(monitor) {
            Some(m) => Some(m.full_geometry),
            None => None,
        };
        let animations: bool = self.animates();
        if let Some(w) = self.window_mut(id) {
            fullscreen_step(w, area, animations);
        }
    }

    pub fn is_fullscreen(&self, id: WindowId) -> (r: bool)
        ensures
            r == (self@.has(id) && self@.windows[id].fullscreen),
    {
        match self.window(id) {
            Some(w) => w.fullscreen,
            None => false,
        }
    }

    pub fn toggle_floating(&mut self, id: WindowId)
        requires
            old(self).wf(),
        ensures
            final(self)@ == old(self)@.float_toggled(id),
            final(self).wf(),
    {
        if let Some(w) = self.window_mut(id) {
            w.floating = !w.floating;
        }
    }

    pub fn is_floating(&self, id: WindowId) -> (r: bool)
        ensures
            r == (self@.has(id) && self@.windows[id].floating),
    {
        match self.window(id) {
            Some(w) => w.floating,
            None => false,
        }
    }

    pub fn move_window(&mut self, id: WindowId, x: i32, y: i32)
        requires
            old(self).wf(),
        ensures
            final(self)@ == old(self)@.moved(id, x, y),
            final(self).wf(),
    {
        if self.window(id).is_some() {
            let here: Rect = self.geometry_of(id);
            self.put_geometry(id, Rect::new(x, y, here.width, here.height));
        }
    }

    /// Resizes a window, to no less than its minimum.
    pub fn resize_window(&mut self, id: WindowId, width: u32, height: u32)
        requires
            old(self).wf(),
        ensures
            final(self)@ == old(self)@.resized(id, width, height),
            final(self).wf(),
    {
        let least: (u32, u32) = match self.window(id) {
            Some(w) => w.min_size,
            None => {
                return;
            },
        };
        let here: Rect = self.geometry_of(id);
        let width: u32 = if width >= least.0 { width } else { least.0 };
        let height: u32 = if height >= least.1 { height } else { least.1 };
        self.put_geometry(id, Rect::new(here.x, here.y, width, height));
    }
}

} // verus!
