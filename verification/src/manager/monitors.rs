//! The monitors, what happens to windows when they change, and what backends
//! are asked to do with outputs.
use super::model::{
    covering, desktop_of, each, first_monitor, homed, lemma_desktop, lemma_each_wf, lemma_monitor_fits,
    marked_primary, primary_of, rehomed, resynced, showing, spanned, with_id,
};
use super::{monitors_ok, State, WindowManager};
use crate::geometry::Rect;
use crate::monitor::{Monitor, MonitorId};
use crate::window::Window;
use crate::workspace::WorkspaceId;
use vstd::prelude::*;

verus! {

/// Looking past a monitor that `p` does not hold of changes nothing.
pub(super) proof fn lemma_look_past(monitors: Seq<Monitor>, p: spec_fn(Monitor) -> bool, i: int)
    requires
        0 <= i < monitors.len(),
    ensures
        first_monitor(monitors.skip(i), p) == (if p(monitors[i]) {
            Some(monitors[i])
        } else {
            first_monitor(monitors.skip(i + 1), p)
        }),
{
    assert(monitors.skip(i)[0] == monitors[i]);
    assert(monitors.skip(i).skip(1) =~= monitors.skip(i + 1));
}

/// The first monitor whose usable area the rectangle overlaps.
pub(super) fn monitor_showing<'a>(monitors: &'a [Monitor], r: &Rect) -> (found: Option<&'a Monitor>)
    ensures
        match found {
            Some(m) => first_monitor(monitors@, showing(*r)) == Some(*m),
            None => first_monitor(monitors@, showing(*r)) is None,
        },
{
    let mut i: usize = 0;
    assert(monitors@.skip(0) =~= monitors@);
    while i < monitors.len()
        invariant
            i <= monitors.len(),
            first_monitor(monitors@, showing(*r)) == first_monitor(monitors@.skip(i as int), showing(*r)),
        decreases monitors.len() - i,
    {
        proof {
            lemma_look_past(monitors@, showing(*r), i as int);
        }
        if monitors[i].geometry.overlaps(r) {
            return Some(&monitors[i]);
        }
        i = i + 1;
    }
    None
}

/// The first monitor whose full area covers the point.
pub(super) fn monitor_covering<'a>(monitors: &'a [Monitor], x: i32, y: i32) -> (found: Option<&'a Monitor>)
    ensures
        match found {
            Some(m) => first_monitor(monitors@, covering(x, y)) == Some(*m),
            None => first_monitor(monitors@, covering(x, y)) is None,
        },
{
    let mut i: usize = 0;
    assert(monitors@.skip(0) =~= monitors@);
    while i < monitors.len()
        invariant
            i <= monitors.len(),
            first_monitor(monitors@, covering(x, y)) == first_monitor(monitors@.skip(i as int), covering(x, y)),
        decreases monitors.len() - i,
    {
        proof {
            lemma_look_past(monitors@, covering(x, y), i as int);
        }
        if monitors[i].full_geometry.contains_point(x, y) {
            return Some(&monitors[i]);
        }
        i = i + 1;
    }
    None
}

/// The monitor with the id.
pub(super) fn monitor_with_id<'a>(monitors: &'a [Monitor], id: u32) -> (found: Option<&'a Monitor>)
    ensures
        match found {
            Some(m) => first_monitor(monitors@, with_id(id)) == Some(*m),
            None => first_monitor(monitors@, with_id(id)) is None,
        },
{
    let mut i: usize = 0;
    assert(monitors@.skip(0) =~= monitors@);
    while i < monitors.len()
        invariant
            i <= monitors.len(),
            first_monitor(monitors@, with_id(id)) == first_monitor(monitors@.skip(i as int), with_id(id)),
        decreases monitors.len() - i,
    {
        proof {
            lemma_look_past(monitors@, with_id(id), i as int);
        }
        if monitors[i].id == id {
            return Some(&monitors[i]);
        }
        i = i + 1;
    }
    None
}

/// The primary monitor: the one marked so, or the first.
pub(super) fn primary_among<'a>(monitors: &'a [Monitor]) -> (found: Option<&'a Monitor>)
    ensures
        match found {
            Some(m) => primary_of(monitors@) == Some(*m),
            None => primary_of(monitors@) is None,
        },
{
    let mut i: usize = 0;
    assert(monitors@.skip(0) =~= monitors@);
    while i < monitors.len()
        invariant
            i <= monitors.len(),
            first_monitor(monitors@, marked_primary()) == first_monitor(monitors@.skip(i as int), marked_primary()),
        decreases monitors.len() - i,
    {
        proof {
            lemma_look_past(monitors@, marked_primary(), i as int);
        }
        if monitors[i].primary {
            return Some(&monitors[i]);
        }
        i = i + 1;
    }
    if monitors.len() > 0 {
        Some(&monitors[0])
    } else {
        None
    }
}

impl WindowManager {
    pub fn primary_monitor(&self) -> (r: Option<&Monitor>)
        ensures
            match r {
                Some(m) => primary_of(self@.monitors) == Some(*m),
                None => primary_of(self@.monitors) is None,
            },
    {
        primary_among(self.monitors())
    }

    /// The monitor with the id, or the primary one where there is none.
    pub(super) fn monitor_for(&self, id: MonitorId) -> (r: Option<&Monitor>)
        requires
            self.wf(),
        ensures
            match r {
                Some(m) => self@.monitor_for(id) == Some(*m) && m.fits(),
                None => self@.monitor_for(id) is None,
            },
    {
        proof {
            lemma_monitor_fits(self@.monitors, id);
        }
        match monitor_with_id(self.monitors(), id) {
            Some(m) => Some(m),
            None => primary_among(self.monitors()),
        }
    }
}

/// Both areas, and what lies between.
fn span(a: &Rect, b: &Rect) -> (r: Rect)
    requires
        a.fits(),
        b.fits(),
    ensures
        r == spanned(*a, *b),
{
    let x: i32 = if a.x <= b.x { a.x } else { b.x };
    let y: i32 = if a.y <= b.y { a.y } else { b.y };
    let right: i64 = if a.right_wide() >= b.right_wide() { a.right_wide() } else { b.right_wide() };
    let bottom: i64 = if a.bottom_wide() >= b.bottom_wide() { a.bottom_wide() } else { b.bottom_wide() };
    Rect::new(x, y, (right - x as i64) as u32, (bottom - y as i64) as u32)
}

/// The area that the monitors span.
pub(super) fn desktop(monitors: &[Monitor]) -> (r: Option<Rect>)
    requires
        monitors_ok(monitors@),
    ensures
        r == desktop_of(monitors@),
        r matches Some(area) ==> area.fits(),
{
    let mut all: Option<Rect> = None;
    let mut i: usize = 0;
    assert(monitors@.take(0) =~= Seq::<Monitor>::empty());
    while i < monitors.len()
        invariant
            i <= monitors.len(),
            monitors_ok(monitors@),
            all == desktop_of(monitors@.take(i as int)),
            all matches Some(area) ==> area.fits(),
        decreases monitors.len() - i,
    {
        proof {
            assert(monitors@.take(i + 1).drop_last() =~= monitors@.take(i as int));
            assert(monitors@.take(i + 1).last() == monitors@[i as int]);
            reveal(monitors_ok);
            lemma_desktop(monitors@.take(i + 1));
        }
        all = match all {
            Some(area) => Some(span(&area, &monitors[i].full_geometry)),
            None => Some(monitors[i].full_geometry),
        };
        i = i + 1;
    }
    assert(monitors@.take(monitors.len() as int) =~= monitors@);
    all
}

/// Brings a window back onto a monitor.
fn home(w: Window, monitors: &[Monitor], primary: &Monitor) -> (r: Window)
    requires
        primary.fits(),
    ensures
        r == homed(w, monitors@, *primary),
{
    let mut w = w;
    match monitor_showing(monitors, &w.geometry) {
        Some(m) => {
            if monitor_with_id(monitors, w.monitor).is_none() {
                w.monitor = m.id;
            }
        },
        None => {
            w.geometry = w.geometry.clamped_into(primary.geometry);
            w.monitor = primary.id;
        },
    }
    w
}

/// Makes a maximized or fullscreen window cover its monitor as it is now.
fn resync(w: Window, monitors: &[Monitor]) -> (r: Window)
    ensures
        r == resynced(w, monitors@),
{
    let mut w = w;
    if w.maximized || w.fullscreen {
        if let Some(m) = monitor_with_id(monitors, w.monitor) {
            w.geometry = if w.maximized { m.maximize_geometry } else { m.full_geometry };
        }
    }
    w
}

impl WindowManager {
    /// Replaces the monitors. A window that no monitor shows any more moves
    /// into the primary one, whatever monitor it belonged to; one that is
    /// maximized or fullscreen covers its monitor as it is now. Without any
    /// monitor the windows stay as they are, for when one returns.
    pub fn set_monitors(&mut self, monitors: Vec<Monitor>)
        requires
            old(self).wf(),
            forall|i: int| 0 <= i < monitors@.len() ==> (#[trigger] monitors@[i]).fits(),
        ensures
            final(self)@ == old(self)@.with_monitors(monitors@),
            final(self).wf(),
    {
        let ghost ms = monitors@;
        let ghost s = self@;
        proof {
            reveal(monitors_ok);
        }
        match primary_among(monitors.as_slice()) {
            Some(p) => {
                let primary: Monitor = p.clone();
                proof {
                    lemma_monitor_fits(ms, 0);
                    lemma_each_wf(s, rehomed(ms, primary));
                }
                self.rehome_all(&monitors, &primary);
                self.put_monitors(monitors);
                assert(self@ == (State { monitors: ms, windows: each(s.windows, rehomed(ms, primary)), ..s }));
                self.apply_monitor_layouts();
            },
            None => {
                self.put_monitors(monitors);
            },
        }
    }

    /// Brings all windows back onto the monitors.
    fn rehome_all(&mut self, monitors: &Vec<Monitor>, primary: &Monitor)
        requires
            old(self).wf(),
            primary.fits(),
        ensures
            final(self)@ == (State {
                windows: each(old(self)@.windows, rehomed(monitors@, *primary)),
                ..old(self)@
            }),
            final(self).wf(),
    {
        let f = |w: Window| -> (r: Window)
            ensures
                r == rehomed(monitors@, *primary)(w),
            { resync(home(w, monitors.as_slice(), primary), monitors.as_slice()) };
        self.rewrite_all(f, Ghost(rehomed(monitors@, *primary)));
    }

    /// Sets the layouts of the workspaces that the monitors show, as
    /// `primary_layout` and `secondary_layout` ask. Only where each monitor
    /// shows a workspace of its own is there anything to tell apart; another
    /// monitor that still shows the primary one's workspace is left alone.
    fn apply_monitor_layouts(&mut self)
        requires
            old(self).wf(),
        ensures
            final(self)@ == old(self)@.monitors_relaid(),
            final(self).wf(),
    {
        if !self.has_own_workspaces() {
            return;
        }
        let primary: u32 = match self.primary_monitor() {
            Some(m) => m.id,
            None => {
                return;
            },
        };
        let workspace: usize = self.workspace_for_monitor(primary);
        let ghost s = self@;
        self.lay_out_primary(workspace);
        assert(self@ == s.primary_relaid(workspace));
        let others: String = self.layout_for_others().to_string();
        if others.as_str().is_empty() || !self.has_layout(others.as_str()) {
            return;
        }
        self.lay_out_others(primary, workspace, others.as_str());
    }

    /// Sets the layout of the primary monitor's workspace, if one is wanted.
    fn lay_out_primary(&mut self, workspace: WorkspaceId)
        requires
            old(self).wf(),
        ensures
            final(self)@ == old(self)@.primary_relaid(workspace),
            final(self).wf(),
    {
        let layout: String = self.layout_for_primary().to_string();
        if !layout.as_str().is_empty() && self.has_layout(layout.as_str()) {
            self.set_layout(workspace, layout.as_str());
        }
    }

    /// Sets the layout of the other monitors' workspaces.
    fn lay_out_others(&mut self, primary: MonitorId, workspace: WorkspaceId, layout: &str)
        requires
            old(self).wf(),
            layout@ == old(self)@.settings.secondary_layout,
        ensures
            final(self)@ == old(self)@.others_relaid(old(self)@.monitors, primary, workspace),
            final(self).wf(),
    {
        let ghost s = self@;
        let ghost ms = self@.monitors;
        let mut i: usize = 0;
        assert(ms.take(0) =~= Seq::<Monitor>::empty());
        while i < self.monitors().len()
            invariant
                i <= ms.len(),
                self.wf(),
                s == old(self)@,
                ms == s.monitors,
                self@.monitors == ms,
                self@.settings == s.settings,
                layout@ == s.settings.secondary_layout,
                self@ == s.others_relaid(ms.take(i as int), primary, workspace),
            decreases ms.len() - i,
        {
            proof {
                assert(ms.take(i + 1).drop_last() =~= ms.take(i as int));
                assert(ms.take(i + 1).last() == ms[i as int]);
            }
            let id: u32 = self.monitors()[i].id;
            let shown: usize = self.workspace_for_monitor(id);
            if id != primary && shown != workspace {
                self.set_layout(shown, layout);
            }
            i = i + 1;
        }
        assert(ms.take(ms.len() as int) =~= ms);
    }
}

} // verus!
