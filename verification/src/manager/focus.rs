//! The focus, and moving it round and in a direction.
use super::ids::{lemma_position, position, position_in};
use super::model::effects::lemma_direction_leads_there;
use super::model::{
    at_edge, centre, distance, lemma_cycled_wf, lemma_focused_wf, lemma_nearest, lemma_ring,
    lemma_swapped_wf, lies, nearest,
};
use super::{windows_ok, Direction, WindowManager};
use crate::geometry::Rect;
use crate::num::saturate_i32;
use crate::window::{Window, WindowId};
use vstd::prelude::*;

verus! {

/// The centre of a rectangle.
pub(super) fn centre_wide(r: &Rect) -> (c: (i64, i64))
    ensures
        (c.0 as int, c.1 as int) == centre(*r),
        -0x8000_0000 <= c.0 <= 0x1_0000_0000,
        -0x8000_0000 <= c.1 <= 0x1_0000_0000,
{
    (r.x as i64 + (r.width / 2) as i64, r.y as i64 + (r.height / 2) as i64)
}

/// Whether the centre of `b` lies in the direction from that of `a`, and how
/// far it is.
fn look(dir: Direction, a: &Rect, b: &Rect) -> (r: Option<i128>)
    ensures
        match r {
            Some(d) => lies(dir, *a, *b) && d == distance(dir, *a, *b),
            None => !lies(dir, *a, *b),
        },
{
    let (ax, ay) = centre_wide(a);
    let (bx, by) = centre_wide(b);
    let dx: i128 = (bx - ax) as i128;
    let dy: i128 = (by - ay) as i128;
    assert(0 <= dx * dx <= 0x2_0000_0000 * 0x2_0000_0000 && 0 <= dy * dy <= 0x2_0000_0000 * 0x2_0000_0000)
        by (nonlinear_arith)
        requires
            -0x2_0000_0000 <= dx <= 0x2_0000_0000,
            -0x2_0000_0000 <= dy <= 0x2_0000_0000,
    ;
    match dir {
        Direction::Left => if dx < 0 { Some(dx * dx + dy * dy * 4) } else { None },
        Direction::Right => if dx > 0 { Some(dx * dx + dy * dy * 4) } else { None },
        Direction::Up => if dy < 0 { Some(dy * dy + dx * dx * 4) } else { None },
        Direction::Down => if dy > 0 { Some(dy * dy + dx * dx * 4) } else { None },
    }
}

/// The rectangle moved to the edge of `area` that lies in the direction.
fn edge_place(r: &Rect, area: &Rect, dir: Direction) -> (p: Rect)
    ensures
        p == at_edge(*r, *area, dir),
{
    match dir {
        Direction::Left => Rect::new(area.x, r.y, r.width, r.height),
        Direction::Right => Rect::new(saturate_i32(area.right_wide() - r.width as i64), r.y, r.width, r.height),
        Direction::Up => Rect::new(r.x, area.y, r.width, r.height),
        Direction::Down => Rect::new(r.x, saturate_i32(area.bottom_wide() - r.height as i64), r.width, r.height),
    }
}

impl WindowManager {
    pub fn focused_window(&self) -> (r: Option<&Window>)
        requires
            self.wf(),
        ensures
            match r {
                Some(w) => self@.focused matches Some(f) && *w == self@.windows[f],
                None => self@.focused is None,
            },
    {
        match self.focused_id() {
            Some(f) => {
                assert(self@.has(f)) by {
                    reveal(windows_ok);
                }
                self.window(f)
            },
            None => None,
        }
    }

    /// Notes that the window is focused, and not minimized.
    fn mark_focused(&mut self, id: WindowId)
        requires
            old(self).wf(),
            old(self)@.has(id),
        ensures
            final(self)@ == old(self)@.marked_focused(id),
            final(self).wf(),
    {
        if let Some(w) = self.window_mut(id) {
            w.minimized = false;
        }
        self.put_focused(Some(id));
        proof {
            lemma_focused_wf(old(self)@, id);
        }
    }

    /// Switches to the workspace of the window, unless it shows already:
    /// asking for a workspace that shows can mean going back to another.
    fn follow(&mut self, id: WindowId)
        requires
            old(self).wf(),
            old(self)@.has(id),
        ensures
            final(self)@ == old(self)@.followed(id),
            final(self).wf(),
    {
        let (workspace, monitor): (usize, u32) = match self.window(id) {
            Some(w) => (w.workspace, w.monitor),
            None => (0, 0),
        };
        let shown: usize = self.workspace_for_monitor(monitor);
        if workspace != shown {
            self.switch_workspace_on_monitor(workspace, monitor);
        }
    }

    /// Focuses a window: it is shown, with its workspace, and raised. An
    /// unknown id changes nothing.
    pub fn focus_window(&mut self, id: WindowId)
        requires
            old(self).wf(),
        ensures
            final(self)@ == old(self)@.focused_on(id),
            final(self).wf(),
    {
        if self.window(id).is_some() {
            self.mark_focused(id);
            self.follow(id);
            self.raise_window(id);
        }
    }

    /// The windows that the focus goes round, in the order they were added.
    fn focus_ring(&self) -> (r: Vec<u64>)
        requires
            self.wf(),
        ensures
            r@ == self@.ring(),
    {
        proof {
            self@.lemma_created_exist();
        }
        self.shown_among(self.created_ids(), self.current_workspace())
    }

    /// The window that the focus moves on to.
    fn next_focus(&self, forward: bool) -> (r: Option<u64>)
        requires
            self.wf(),
        ensures
            match r {
                Some(id) => self@.ring().len() > 0 && id == self@.ring()[self@.next_in_ring(forward)],
                None => self@.ring().len() == 0,
            },
    {
        let ids: Vec<u64> = self.focus_ring();
        if ids.len() == 0 {
            return None;
        }
        let here: Option<usize> = match self.focused_id() {
            Some(f) => {
                proof {
                    lemma_position(ids@, f);
                }
                position(&ids, f)
            },
            None => None,
        };
        let next: usize = match here {
            None => 0,
            Some(p) => if forward {
                if p + 1 < ids.len() { p + 1 } else { 0 }
            } else {
                if p > 0 { p - 1 } else { ids.len() - 1 }
            },
        };
        proof {
            let n = ids.len() as int;
            if let Some(p) = here {
                let f = self@.focused->Some_0;
                assert(position_in(ids@, f) == p) by {
                    assert(ids@.contains(f)) by {
                        assert(ids@[p as int] == f);
                    }
                }
                assert((p + 1) % n == (if p + 1 < n { p + 1 } else { 0 })) by (nonlinear_arith)
                    requires
                        0 <= p < n,
                ;
                assert((p + n - 1) % n == (if p > 0 { p - 1 } else { n - 1 })) by (nonlinear_arith)
                    requires
                        0 <= p < n,
                ;
            }
        }
        Some(ids[next])
    }

    /// Moves the focus on among the windows of the current workspace that are
    /// not minimized.
    pub(super) fn cycle_focus(&mut self, forward: bool)
        requires
            old(self).wf(),
        ensures
            final(self)@ == old(self)@.cycled(forward),
            final(self).wf(),
    {
        match self.next_focus(forward) {
            Some(id) => {
                self.focus_window(id);
            },
            None => {
                self.put_focused(None);
                proof {
                    lemma_cycled_wf(old(self)@, forward);
                }
            },
        }
    }

    pub fn focus_next(&mut self)
        requires
            old(self).wf(),
        ensures
            final(self)@ == old(self)@.cycled(true),
            final(self).wf(),
    {
        self.cycle_focus(true);
    }

    pub fn focus_previous(&mut self)
        requires
            old(self).wf(),
        ensures
            final(self)@ == old(self)@.cycled(false),
            final(self).wf(),
    {
        self.cycle_focus(false);
    }

    /// The window nearest to the focused one in a direction, on the current
    /// workspace. The way across the direction counts double, so that a window
    /// straight ahead beats one off to the side.
    pub fn neighbour_in(&self, dir: Direction) -> (r: Option<WindowId>)
        requires
            self.wf(),
        ensures
            r == self@.neighbour(dir),
    {
        let from: u64 = match self.focused_id() {
            Some(f) => f,
            None => {
                return None;
            },
        };
        let here: Rect = match self.window(from) {
            Some(w) => w.geometry,
            None => {
                return None;
            },
        };
        let ids: Vec<u64> = self.focus_ring();
        let mut best: Option<(u64, i128)> = None;
        let mut i: usize = 0;
        proof {
            lemma_ring(self@);
            assert(ids@.take(0) =~= Seq::<u64>::empty());
        }
        while i < ids.len()
            invariant
                i <= ids.len(),
                self.wf(),
                ids@ == self@.ring(),
                forall|id: u64| #[trigger] self@.ring().contains(id) ==> self@.has(id),
                here == self@.windows[from].geometry,
                match best {
                    Some(b) => nearest(self@.windows, ids@.take(i as int), from, dir) == Some(b.0) && b.1 == distance(
                        dir,
                        here,
                        self@.windows[b.0].geometry,
                    ),
                    None => nearest(self@.windows, ids@.take(i as int), from, dir) is None,
                },
            decreases ids.len() - i,
        {
            let id: u64 = ids[i];
            proof {
                assert(ids@.take(i + 1).drop_last() =~= ids@.take(i as int));
                assert(ids@.take(i + 1).last() == id);
                assert(self@.ring().contains(id));
            }
            let there: Option<i128> = match self.window(id) {
                Some(w) => look(dir, &here, &w.geometry),
                None => None,
            };
            if id != from {
                if let Some(d) = there {
                    let nearer: bool = match best {
                        Some(b) => d < b.1,
                        None => true,
                    };
                    if nearer {
                        best = Some((id, d));
                    }
                }
            }
            i = i + 1;
        }
        assert(ids@.take(ids.len() as int) =~= ids@);
        match best {
            Some(b) => Some(b.0),
            None => None,
        }
    }

    /// Focuses the nearest window in a direction, if there is one, and returns
    /// it.
    pub fn focus_direction(&mut self, dir: Direction) -> (r: Option<WindowId>)
        requires
            old(self).wf(),
        ensures
            r == old(self)@.neighbour(dir),
            final(self)@ == (match r {
                Some(id) => old(self)@.focused_on(id),
                None => old(self)@,
            }),
            final(self).wf(),
            // The window found has its centre on the side asked for.
            r matches Some(id) ==> {
                let from = old(self)@.windows[old(self)@.focused->Some_0].geometry;
                let to = old(self)@.windows[id].geometry;
                &&& dir is Left ==> to.x + to.width / 2 < from.x + from.width / 2
                &&& dir is Right ==> to.x + to.width / 2 > from.x + from.width / 2
                &&& dir is Up ==> to.y + to.height / 2 < from.y + from.height / 2
                &&& dir is Down ==> to.y + to.height / 2 > from.y + from.height / 2
            },
            // None is found only where no window of the workspace is there.
            r is None && old(self)@.focused is Some ==> forall|id: u64|
                old(self)@.has(id) && old(self)@.windows[id].workspace == old(self)@.current
                    && !old(self)@.windows[id].minimized ==> {
                    let from = old(self)@.windows[old(self)@.focused->Some_0].geometry;
                    let to = (#[trigger] old(self)@.windows[id]).geometry;
                    &&& dir is Left ==> to.x + to.width / 2 >= from.x + from.width / 2
                    &&& dir is Right ==> to.x + to.width / 2 <= from.x + from.width / 2
                    &&& dir is Up ==> to.y + to.height / 2 >= from.y + from.height / 2
                    &&& dir is Down ==> to.y + to.height / 2 <= from.y + from.height / 2
                },
    {
        let target = self.neighbour_in(dir);
        proof {
            let s = self@;
            if s.focused is Some {
                lemma_direction_leads_there(s, dir, s.focused->Some_0);
                if target is None {
                    assert forall|id: u64| s.has(id) && s.windows[id].workspace == s.current && !s.windows[id].minimized
                        implies {
                        let from = s.windows[s.focused->Some_0].geometry;
                        let to = (#[trigger] s.windows[id]).geometry;
                        &&& dir is Left ==> to.x + to.width / 2 >= from.x + from.width / 2
                        &&& dir is Right ==> to.x + to.width / 2 <= from.x + from.width / 2
                        &&& dir is Up ==> to.y + to.height / 2 >= from.y + from.height / 2
                        &&& dir is Down ==> to.y + to.height / 2 <= from.y + from.height / 2
                    } by {
                        lemma_direction_leads_there(s, dir, id);
                    }
                }
            }
        }
        if let Some(id) = target {
            self.focus_window(id);
        }
        target
    }

    /// Lets two windows trade places, on the screen and in the stack.
    fn swap_windows(&mut self, a: WindowId, b: WindowId)
        requires
            old(self).wf(),
            old(self)@.has(a),
            old(self)@.has(b),
            a != b,
        ensures
            final(self)@ == old(self)@.swapped(a, b),
            final(self).wf(),
    {
        let ghost s = self@;
        let at_a: Rect = self.geometry_of(a);
        let at_b: Rect = self.geometry_of(b);
        self.put_geometry(a, at_b);
        self.put_geometry(b, at_a);
        let ghost t = self@;
        proof {
            lemma_position(s.order, a);
            lemma_position(s.order, b);
            lemma_swapped_wf(s, a, b);
            assert(s.order.contains(a) && s.order.contains(b)) by {
                reveal(windows_ok);
            }
        }
        let mut order: Vec<u64> = self.order_ids().clone();
        let ia: Option<usize> = position(&order, a);
        let ib: Option<usize> = position(&order, b);
        if let (Some(i), Some(j)) = (ia, ib) {
            order.set(i, b);
            order.set(j, a);
        }
        self.put_order(order);
        assert(self@ == s.swapped(a, b));
    }

    /// Moves a window to the edge of its monitor that lies in the direction.
    fn push_to_edge(&mut self, id: WindowId, dir: Direction)
        requires
            old(self).wf(),
            old(self)@.has(id),
        ensures
            final(self)@ == old(self)@.pushed(id, dir),
            final(self).wf(),
    {
        let monitor: u32 = self.monitor_of(id);
        let here: Rect = self.geometry_of(id);
        let area: Option<Rect> = match self.monitor_for(monitor) {
            Some(m) => Some(m.geometry),
            None => None,
        };
        if let Some(area) = area {
            self.put_geometry(id, edge_place(&here, &area, dir));
        }
    }

    /// Moves the focused window in a direction: it trades places with the
    /// nearest window there, which is returned. With none there it goes to the
    /// edge of its monitor.
    pub fn move_window_direction(&mut self, dir: Direction) -> (r: Option<WindowId>)
        requires
            old(self).wf(),
        ensures
            r == old(self)@.neighbour(dir),
            final(self)@ == (match (old(self)@.focused, r) {
                (Some(f), Some(other)) => old(self)@.swapped(f, other),
                (Some(f), None) => old(self)@.pushed(f, dir),
                (None, _) => old(self)@,
            }),
            final(self).wf(),
    {
        let from: u64 = match self.focused_id() {
            Some(f) => f,
            None => {
                return None;
            },
        };
        proof {
            assert(self@.has(from)) by {
                reveal(windows_ok);
            }
            lemma_ring(self@);
            lemma_nearest(self@.windows, self@.ring(), from, dir);
        }
        let found = self.neighbour_in(dir);
        match found {
            Some(other) => self.swap_windows(from, other),
            None => self.push_to_edge(from, dir),
        }
        found
    }
}

} // verus!
