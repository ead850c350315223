//! The operations of the window manager, as functions from state to state.
use super::ids::{
    lemma_concat, lemma_filter, lemma_position, lemma_push, lemma_without_first, position_in, without_first,
};
use super::store::{CaptureView, Settings};
use super::{
    monitors_ok, windows_ok, workspace_in, workspaces_ok, CaptureRequest, Direction, State, WorkspaceView,
};
use crate::geometry::{int_max, int_min, Rect};
use crate::monitor::Monitor;
use crate::num::to_i32_range;
use crate::placement::SnapZoneKind;
use crate::window::{Frame, ResizeEdge, TitlebarHit, Window};
use vstd::prelude::*;

pub mod drag;
pub mod effects;
pub mod laws;
pub mod motion;
pub mod newcomer;
pub mod turns;
pub mod upkeep;

verus! {

// ---- Requests ----------------------------------------------------------------

pub open spec fn enable_views(v: Seq<(String, bool)>) -> Seq<(Seq<char>, bool)> {
    v.map_values(|e: (String, bool)| (e.0@, e.1))
}

pub open spec fn split_views(v: Seq<(String, u32, bool)>) -> Seq<(Seq<char>, u32, bool)> {
    v.map_values(|e: (String, u32, bool)| (e.0@, e.1, e.2))
}

pub open spec fn fake_views(v: Seq<(String, u32, u32)>) -> Seq<(Seq<char>, u32, u32)> {
    v.map_values(|e: (String, u32, u32)| (e.0@, e.1, e.2))
}

pub open spec fn capture_views(v: Seq<CaptureRequest>) -> Seq<CaptureView> {
    v.map_values(|e: CaptureRequest| e@)
}

/// Borrowed entries of a table.
pub open spec fn table_views<V>(v: Seq<(&str, &V)>) -> Seq<(Seq<char>, V)> {
    v.map_values(|e: (&str, &V)| (e.0@, *e.1))
}

/// What holds of the requests for outputs other than `id`.
pub open spec fn other_output(id: u32) -> spec_fn((u32, i32, i32)) -> bool {
    |e: (u32, i32, i32)| e.0 != id
}

pub open spec fn other_key(name: Seq<char>) -> spec_fn((Seq<char>, bool)) -> bool {
    |e: (Seq<char>, bool)| e.0 != name
}

pub open spec fn other_part(name: Seq<char>) -> spec_fn((Seq<char>, u32, bool)) -> bool {
    |e: (Seq<char>, u32, bool)| e.0 != name
}

pub open spec fn other_pid(pid: i32) -> spec_fn((i32, Option<u64>)) -> bool {
    |e: (i32, Option<u64>)| e.0 != pid
}

pub open spec fn other_process(pid: i32) -> spec_fn((i32, u64)) -> bool {
    |e: (i32, u64)| e.0 != pid
}

/// The window that a process is pinned to.
pub open spec fn pinned_at(pinned: Seq<(i32, u64)>, pid: i32) -> Option<u64>
    decreases pinned.len(),
{
    if pinned.len() == 0 {
        None
    } else if pinned[0].0 == pid {
        Some(pinned[0].1)
    } else {
        pinned_at(pinned.skip(1), pid)
    }
}

// ---- Monitors ----------------------------------------------------------------

/// The first monitor that `p` holds of.
pub open spec fn first_monitor(monitors: Seq<Monitor>, p: spec_fn(Monitor) -> bool) -> Option<Monitor>
    decreases monitors.len(),
{
    if monitors.len() == 0 {
        None
    } else if p(monitors[0]) {
        Some(monitors[0])
    } else {
        first_monitor(monitors.skip(1), p)
    }
}

/// What [`first_monitor`] finds is one of the monitors.
pub proof fn lemma_first_monitor(monitors: Seq<Monitor>, p: spec_fn(Monitor) -> bool)
    ensures
        match first_monitor(monitors, p) {
            Some(m) => p(m) && monitors.contains(m),
            None => forall|i: int| 0 <= i < monitors.len() ==> !p(#[trigger] monitors[i]),
        },
    decreases monitors.len(),
{
    if monitors.len() > 0 {
        if p(monitors[0]) {
            assert(monitors.contains(monitors[0]));
        } else {
            let rest = monitors.skip(1);
            lemma_first_monitor(rest, p);
            match first_monitor(rest, p) {
                Some(m) => {
                    let i = choose|i: int| 0 <= i < rest.len() && rest[i] == m;
                    assert(monitors[i + 1] == m);
                },
                None => {
                    assert forall|i: int| 0 <= i < monitors.len() implies !p(#[trigger] monitors[i]) by {
                        if i > 0 {
                            assert(rest[i - 1] == monitors[i]);
                        }
                    }
                },
            }
        }
    }
}

pub open spec fn with_id(id: u32) -> spec_fn(Monitor) -> bool {
    |m: Monitor| m.id == id
}

pub open spec fn marked_primary() -> spec_fn(Monitor) -> bool {
    |m: Monitor| m.primary
}

/// What holds of the monitors whose usable area `r` overlaps.
pub open spec fn showing(r: Rect) -> spec_fn(Monitor) -> bool {
    |m: Monitor| m.geometry.meets(r)
}

/// What holds of the monitors whose full area covers the point.
pub open spec fn covering(x: i32, y: i32) -> spec_fn(Monitor) -> bool {
    |m: Monitor| m.full_geometry.covers(x as int, y as int)
}

/// The primary monitor among `monitors`: the one marked so, or the first.
pub open spec fn primary_of(monitors: Seq<Monitor>) -> Option<Monitor> {
    match first_monitor(monitors, marked_primary()) {
        Some(m) => Some(m),
        None => if monitors.len() > 0 { Some(monitors[0]) } else { None },
    }
}

/// The monitor with the id among `monitors`, or the primary one.
pub open spec fn monitor_or_primary(monitors: Seq<Monitor>, id: u32) -> Option<Monitor> {
    match first_monitor(monitors, with_id(id)) {
        Some(m) => Some(m),
        None => primary_of(monitors),
    }
}

/// A monitor that a lookup gives fits the coordinates.
pub proof fn lemma_monitor_fits(monitors: Seq<Monitor>, id: u32)
    requires
        monitors_ok(monitors),
    ensures
        primary_of(monitors) matches Some(m) ==> m.fits(),
        monitor_or_primary(monitors, id) matches Some(m) ==> m.fits(),
        primary_of(monitors) is Some <==> monitors.len() > 0,
{
    reveal(monitors_ok);
    lemma_first_monitor(monitors, with_id(id));
    lemma_first_monitor(monitors, marked_primary());
}

/// Both areas, and what lies between.
pub open spec fn spanned(a: Rect, b: Rect) -> Rect {
    let x = int_min(a.x as int, b.x as int);
    let y = int_min(a.y as int, b.y as int);
    Rect {
        x: x as i32,
        y: y as i32,
        width: (int_max(a.right_edge(), b.right_edge()) - x) as u32,
        height: (int_max(a.bottom_edge(), b.bottom_edge()) - y) as u32,
    }
}

/// The area that the monitors span.
pub open spec fn desktop_of(monitors: Seq<Monitor>) -> Option<Rect>
    decreases monitors.len(),
{
    if monitors.len() == 0 {
        None
    } else {
        match desktop_of(monitors.drop_last()) {
            Some(r) => Some(spanned(r, monitors.last().full_geometry)),
            None => Some(monitors.last().full_geometry),
        }
    }
}

/// The area that monitors span fits the coordinates and covers each of them.
pub proof fn lemma_desktop(monitors: Seq<Monitor>)
    requires
        monitors_ok(monitors),
    ensures
        match desktop_of(monitors) {
            Some(r) => r.fits() && forall|i: int|
                0 <= i < monitors.len() ==> (#[trigger] monitors[i]).full_geometry.within(r),
            None => monitors.len() == 0,
        },
    decreases monitors.len(),
{
    reveal(monitors_ok);
    if monitors.len() > 0 {
        let front = monitors.drop_last();
        assert(monitors_ok(front)) by {
            assert forall|i: int| 0 <= i < front.len() implies (#[trigger] front[i]).fits() by {
                assert(front[i] == monitors[i]);
            }
        }
        lemma_desktop(front);
        assert(monitors[monitors.len() - 1].fits());
        assert forall|i: int| 0 <= i < monitors.len() implies (#[trigger] monitors[i]).full_geometry.within(
            desktop_of(monitors)->Some_0,
        ) by {
            if i < front.len() {
                assert(front[i] == monitors[i]);
            }
        }
    }
}

/// A window brought back onto a monitor: one that no monitor shows moves into
/// the primary one, and one whose monitor is gone belongs to the one that
/// shows it.
pub open spec fn homed(w: Window, monitors: Seq<Monitor>, primary: Monitor) -> Window {
    match first_monitor(monitors, showing(w.geometry)) {
        Some(m) => if first_monitor(monitors, with_id(w.monitor)) is Some {
            w
        } else {
            Window { monitor: m.id, ..w }
        },
        None => Window { geometry: w.geometry.moved_into(primary.geometry), monitor: primary.id, ..w },
    }
}

/// A maximized or fullscreen window made to cover its monitor as it is now.
pub open spec fn resynced(w: Window, monitors: Seq<Monitor>) -> Window {
    if w.maximized || w.fullscreen {
        match first_monitor(monitors, with_id(w.monitor)) {
            Some(m) => Window { geometry: if w.maximized { m.maximize_geometry } else { m.full_geometry }, ..w },
            None => w,
        }
    } else {
        w
    }
}

/// What a change of monitors does to a window.
pub open spec fn rehomed(monitors: Seq<Monitor>, primary: Monitor) -> spec_fn(Window) -> Window {
    |w: Window| resynced(homed(w, monitors, primary), monitors)
}

// ---- Windows -----------------------------------------------------------------

/// What holds of the windows that stay on top.
pub open spec fn pinned_in(windows: Map<u64, Window>) -> spec_fn(u64) -> bool {
    |id: u64| windows[id].always_on_top
}

/// What holds of the windows that do not stay on top.
pub open spec fn loose_in(windows: Map<u64, Window>) -> spec_fn(u64) -> bool {
    |id: u64| !windows[id].always_on_top
}

/// A stacking order with the windows that stay on top moved there, in their
/// order.
pub open spec fn restacked(windows: Map<u64, Window>, order: Seq<u64>) -> Seq<u64> {
    order.filter(loose_in(windows)) + order.filter(pinned_in(windows))
}

/// Whether `ws` are the windows with the ids.
pub open spec fn lists(ws: Seq<&Window>, ids: Seq<u64>, windows: Map<u64, Window>) -> bool {
    ws.len() == ids.len() && forall|k: int| 0 <= k < ids.len() ==> *#[trigger] ws[k] == windows[ids[k]]
}

/// What holds of the windows of a workspace that are not minimized.
pub open spec fn shown_in(windows: Map<u64, Window>, workspace: usize) -> spec_fn(u64) -> bool {
    |id: u64| windows[id].workspace == workspace && !windows[id].minimized
}

/// What holds of the windows of a workspace.
pub open spec fn placed_in(windows: Map<u64, Window>, workspace: usize) -> spec_fn(u64) -> bool {
    |id: u64| windows[id].workspace == workspace
}

/// Every window put through `f`.
pub open spec fn each(windows: Map<u64, Window>, f: spec_fn(Window) -> Window) -> Map<u64, Window> {
    windows.map_values(f)
}

/// The windows with the ids put through `f`.
pub open spec fn each_of(windows: Map<u64, Window>, ids: Seq<u64>, f: spec_fn(Window) -> Window) -> Map<u64, Window>
    decreases ids.len(),
{
    if ids.len() == 0 {
        windows
    } else {
        let m = each_of(windows, ids.drop_last(), f);
        m.insert(ids.last(), f(m[ids.last()]))
    }
}

/// What [`each_of`] does to each window.
pub proof fn lemma_each_of(windows: Map<u64, Window>, ids: Seq<u64>, f: spec_fn(Window) -> Window)
    requires
        ids.no_duplicates(),
        forall|id: u64| #[trigger] ids.contains(id) ==> windows.contains_key(id),
    ensures
        forall|id: u64| #[trigger] each_of(windows, ids, f).contains_key(id) <==> windows.contains_key(id),
        forall|id: u64|
            windows.contains_key(id) ==> #[trigger] each_of(windows, ids, f)[id] == if ids.contains(id) {
                f(windows[id])
            } else {
                windows[id]
            },
    decreases ids.len(),
{
    if ids.len() > 0 {
        let front = ids.drop_last();
        let last = ids.last();
        assert forall|id: u64| #[trigger] front.contains(id) implies ids.contains(id) by {
            let k = choose|k: int| 0 <= k < front.len() && front[k] == id;
            assert(ids[k] == id);
        }
        lemma_each_of(windows, front, f);
        assert(ids[ids.len() - 1] == last);
        assert(ids.contains(last));
        assert(!front.contains(last)) by {
            if front.contains(last) {
                let k = choose|k: int| 0 <= k < front.len() && front[k] == last;
                assert(ids[k] == ids[ids.len() - 1]);
            }
        }
        let m = each_of(windows, front, f);
        let v = f(m[last]);
        assert(each_of(windows, ids, f) == m.insert(last, v));
        assert forall|id: u64| windows.contains_key(id) implies #[trigger] each_of(windows, ids, f)[id] == (if ids.contains(
            id,
        ) {
            f(windows[id])
        } else {
            windows[id]
        }) by {
            if id != last && ids.contains(id) {
                let k = choose|k: int| 0 <= k < ids.len() && ids[k] == id;
                assert(front[k] == id);
            }
        }
    }
}

/// Going through the windows in the order they were added reaches them all.
pub proof fn lemma_each_of_created(s: State, f: spec_fn(Window) -> Window)
    requires
        s.wf(),
    ensures
        each_of(s.windows, s.created, f) == each(s.windows, f),
{
    reveal(windows_ok);
    lemma_each_of(s.windows, s.created, f);
    assert(each_of(s.windows, s.created, f) =~= each(s.windows, f));
}

/// Going one window further.
pub proof fn lemma_each_step(s: State, i: int, f: spec_fn(Window) -> Window)
    requires
        s.wf(),
        0 <= i < s.created.len(),
    ensures
        ({
            let before = each_of(s.windows, s.created.take(i), f);
            let id = s.created[i];
            before.contains_key(id) && each_of(s.windows, s.created.take(i + 1), f) == before.insert(id, f(before[id]))
        }),
{
    reveal(windows_ok);
    assert(s.created.take(i + 1).drop_last() =~= s.created.take(i));
    assert(s.created.take(i + 1).last() == s.created[i]);
    assert(s.created.contains(s.created[i]));
    assert forall|id: u64| #[trigger] s.created.take(i).contains(id) implies s.windows.contains_key(id) by {
        let k = choose|k: int| 0 <= k < i && s.created.take(i)[k] == id;
        assert(s.created[k] == id);
        assert(s.created.contains(id));
    }
    lemma_each_of(s.windows, s.created.take(i), f);
}

/// Replacing windows by others under the same ids keeps the state well-formed.
pub proof fn lemma_each_wf(s: State, f: spec_fn(Window) -> Window)
    requires
        s.wf(),
    ensures
        windows_ok(each(s.windows, f), s.created, s.order, s.focused),
{
    reveal(windows_ok);
}

// ---- Workspaces --------------------------------------------------------------

/// The first workspace other than `id`.
pub open spec fn first_other(workspaces: Seq<WorkspaceView>, id: usize) -> usize
    decreases workspaces.len(),
{
    if workspaces.len() == 0 {
        1
    } else if workspaces[0].id != id {
        workspaces[0].id
    } else {
        first_other(workspaces.skip(1), id)
    }
}

/// What holds of the workspaces other than `id`.
pub open spec fn other_workspace(id: usize) -> spec_fn(WorkspaceView) -> bool {
    |w: WorkspaceView| w.id != id
}

/// A workspace under another name, if it is the one meant.
pub open spec fn renamed(id: usize, name: Seq<char>) -> spec_fn(WorkspaceView) -> WorkspaceView {
    |w: WorkspaceView| if w.id == id { WorkspaceView { name, ..w } } else { w }
}

/// A workspace with another layout, if it is the one meant.
pub open spec fn relaid(id: usize, layout: Seq<char>) -> spec_fn(WorkspaceView) -> WorkspaceView {
    |w: WorkspaceView| if w.id == id { WorkspaceView { layout, ..w } } else { w }
}

/// A window moved from one workspace to another, if it is there.
pub open spec fn moved_between(from: usize, to: usize) -> spec_fn(Window) -> Window {
    |w: Window| if w.workspace == from { Window { workspace: to, ..w } } else { w }
}

/// With two workspaces or more there is one other than `id`.
pub proof fn lemma_first_other(workspaces: Seq<WorkspaceView>, id: usize)
    requires
        exists|i: int| 0 <= i < workspaces.len() && (#[trigger] workspaces[i]).id != id,
    ensures
        first_other(workspaces, id) != id,
        workspace_in(workspaces, first_other(workspaces, id)),
    decreases workspaces.len(),
{
    if workspaces[0].id == id {
        let i = choose|i: int| 0 <= i < workspaces.len() && (#[trigger] workspaces[i]).id != id;
        let rest = workspaces.skip(1);
        assert(rest[i - 1] == workspaces[i]);
        lemma_first_other(rest, id);
        let k = choose|k: int| 0 <= k < rest.len() && (#[trigger] rest[k]).id == first_other(rest, id);
        assert(workspaces[k + 1].id == first_other(rest, id));
    }
}

/// What is left of the workspaces without one of them.
pub proof fn lemma_other_workspaces(workspaces: Seq<WorkspaceView>, id: usize)
    requires
        forall|i: int, j: int|
            0 <= i < j < workspaces.len() ==> (#[trigger] workspaces[i]).id != (#[trigger] workspaces[j]).id,
    ensures
        ({
            let f = workspaces.filter(other_workspace(id));
            &&& forall|w: WorkspaceView| #[trigger] f.contains(w) <==> workspaces.contains(w) && w.id != id
            &&& forall|i: int, j: int| 0 <= i < j < f.len() ==> (#[trigger] f[i]).id != (#[trigger] f[j]).id
        }),
    decreases workspaces.len(),
{
    reveal(Seq::filter);
    let f = workspaces.filter(other_workspace(id));
    if workspaces.len() > 0 {
        let front = workspaces.drop_last();
        let last = workspaces.last();
        assert forall|i: int, j: int| 0 <= i < j < front.len() implies (#[trigger] front[i]).id != (
        #[trigger] front[j]).id by {
            assert(workspaces[i].id != workspaces[j].id);
        }
        lemma_other_workspaces(front, id);
        let g = front.filter(other_workspace(id));
        assert(workspaces[workspaces.len() - 1] == last);
        assert forall|w: WorkspaceView| #[trigger] f.contains(w) <==> workspaces.contains(w) && w.id != id by {
            if f.contains(w) {
                let k = choose|k: int| 0 <= k < f.len() && f[k] == w;
                if k < g.len() {
                    assert(g[k] == w);
                    assert(g.contains(w));
                    let m = choose|m: int| 0 <= m < front.len() && front[m] == w;
                    assert(workspaces[m] == w);
                }
            }
            if workspaces.contains(w) && w.id != id {
                let m = choose|m: int| 0 <= m < workspaces.len() && workspaces[m] == w;
                if m < front.len() {
                    assert(front[m] == w);
                    assert(g.contains(w));
                    let k = choose|k: int| 0 <= k < g.len() && g[k] == w;
                    assert(f[k] == w);
                } else {
                    assert(f[f.len() - 1] == w);
                }
            }
        }
        assert forall|i: int, j: int| 0 <= i < j < f.len() implies (#[trigger] f[i]).id != (#[trigger] f[j]).id by {
            if j < g.len() {
                assert(g[i].id != g[j].id);
            } else {
                assert(g[i] == f[i]);
                assert(g.contains(g[i]));
                let m = choose|m: int| 0 <= m < front.len() && front[m] == g[i];
                assert(workspaces[m].id != workspaces[workspaces.len() - 1].id);
            }
        }
    }
}

/// The two coordinates of a rectangle's centre.
pub open spec fn centre(r: Rect) -> (int, int) {
    (r.x + r.width / 2, r.y + r.height / 2)
}

/// Whether the centre of `b` lies in the direction from that of `a`.
pub open spec fn lies(dir: Direction, a: Rect, b: Rect) -> bool {
    match dir {
        Direction::Left => centre(b).0 < centre(a).0,
        Direction::Right => centre(b).0 > centre(a).0,
        Direction::Up => centre(b).1 < centre(a).1,
        Direction::Down => centre(b).1 > centre(a).1,
    }
}

/// The squared distance of the centres, with the way across the direction
/// counted double.
pub open spec fn distance(dir: Direction, a: Rect, b: Rect) -> int {
    let dx = centre(b).0 - centre(a).0;
    let dy = centre(b).1 - centre(a).1;
    match dir {
        Direction::Left => dx * dx + dy * dy * 4,
        Direction::Right => dx * dx + dy * dy * 4,
        Direction::Up => dy * dy + dx * dx * 4,
        Direction::Down => dy * dy + dx * dx * 4,
    }
}

/// A rectangle moved to the edge of `area` that lies in the direction.
pub open spec fn at_edge(r: Rect, area: Rect, dir: Direction) -> Rect {
    match dir {
        Direction::Left => Rect { x: area.x, ..r },
        Direction::Right => Rect { x: to_i32_range(area.right_edge() - r.width) as i32, ..r },
        Direction::Up => Rect { y: area.y, ..r },
        Direction::Down => Rect { y: to_i32_range(area.bottom_edge() - r.height) as i32, ..r },
    }
}

/// The nearest of `ids` that lies in the direction from window `from`; the
/// first of several that are as near.
pub open spec fn nearest(
    windows: Map<u64, Window>,
    ids: Seq<u64>,
    from: u64,
    dir: Direction,
) -> Option<u64>
    decreases ids.len(),
{
    if ids.len() == 0 {
        None
    } else {
        let best = nearest(windows, ids.drop_last(), from, dir);
        let id = ids.last();
        let a = windows[from].geometry;
        let b = windows[id].geometry;
        if id == from || !lies(dir, a, b) {
            best
        } else {
            match best {
                None => Some(id),
                Some(other) => if distance(dir, a, b) < distance(dir, a, windows[other].geometry) {
                    Some(id)
                } else {
                    best
                },
            }
        }
    }
}

/// What [`nearest`] finds lies in the direction, and no other window that does
/// is nearer.
pub proof fn lemma_nearest(windows: Map<u64, Window>, ids: Seq<u64>, from: u64, dir: Direction)
    ensures
        match nearest(windows, ids, from, dir) {
            Some(id) => {
                &&& ids.contains(id)
                &&& id != from
                &&& lies(dir, windows[from].geometry, windows[id].geometry)
                &&& forall|k: int|
                    #![trigger ids[k]]
                    0 <= k < ids.len() && ids[k] != from && lies(
                        dir,
                        windows[from].geometry,
                        windows[ids[k]].geometry,
                    ) ==> distance(dir, windows[from].geometry, windows[id].geometry) <= distance(
                        dir,
                        windows[from].geometry,
                        windows[ids[k]].geometry,
                    )
            },
            None => forall|k: int|
                #![trigger ids[k]]
                0 <= k < ids.len() && ids[k] != from ==> !lies(
                    dir,
                    windows[from].geometry,
                    windows[ids[k]].geometry,
                ),
        },
    decreases ids.len(),
{
    if ids.len() > 0 {
        let front = ids.drop_last();
        lemma_nearest(windows, front, from, dir);
        assert forall|k: int| 0 <= k < front.len() implies front[k] == #[trigger] ids[k] by {
        }
        if let Some(id) = nearest(windows, front, from, dir) {
            let k = choose|k: int| 0 <= k < front.len() && front[k] == id;
            assert(ids[k] == id);
        }
        assert(ids[ids.len() - 1] == ids.last());
    }
}

impl State {
    pub open spec fn monitor_for(self, id: u32) -> Option<Monitor> {
        monitor_or_primary(self.monitors, id)
    }

    /// The layout of the primary monitor's workspace set, where one is wanted.
    pub open spec fn primary_relaid(self, workspace: usize) -> State {
        let layout = self.settings.primary_layout;
        if layout.len() > 0 && self.layouts.contains_key(layout) {
            self.with_layout(workspace, layout)
        } else {
            self
        }
    }

    /// The layout of the workspaces of `monitors` set, but for the workspace of
    /// the primary monitor.
    pub open spec fn others_relaid(self, monitors: Seq<Monitor>, primary: u32, workspace: usize) -> State
        decreases monitors.len(),
    {
        if monitors.len() == 0 {
            self
        } else {
            let s = self.others_relaid(monitors.drop_last(), primary, workspace);
            let m = monitors.last();
            if m.id == primary || s.shown_on(m.id) == workspace {
                s
            } else {
                s.with_layout(s.shown_on(m.id), s.settings.secondary_layout)
            }
        }
    }

    /// The layouts of the monitors' workspaces set, where monitors show
    /// workspaces of their own and layouts are wanted for them.
    pub open spec fn monitors_relaid(self) -> State {
        match primary_of(self.monitors) {
            Some(m) => {
                let workspace = self.shown_on(m.id);
                let s = self.primary_relaid(workspace);
                let others = self.settings.secondary_layout;
                if !self.settings.per_monitor_workspaces {
                    self
                } else if others.len() > 0 && self.layouts.contains_key(others) {
                    s.others_relaid(self.monitors, m.id, workspace)
                } else {
                    s
                }
            },
            None => self,
        }
    }

    /// Other monitors, with the windows brought back onto them.
    pub open spec fn with_monitors(self, monitors: Seq<Monitor>) -> State {
        match primary_of(monitors) {
            Some(primary) => State {
                monitors,
                windows: each(self.windows, rehomed(monitors, primary)),
                ..self
            }.monitors_relaid(),
            None => State { monitors, ..self },
        }
    }

    // ---- Stacking ------------------------------------------------------------

    pub open spec fn restack(self) -> State {
        State { order: restacked(self.windows, self.order), ..self }
    }

    /// The window moved to the top of the stack, under those that stay on top.
    pub open spec fn raised(self, id: u64) -> State {
        State { order: if self.has(id) { without_first(self.order, id).push(id) } else { self.order }, ..self }.restack()
    }

    /// The window moved to the back of the stack, unless it stays on top.
    pub open spec fn lowered(self, id: u64) -> State {
        State {
            order: if self.has(id) { seq![id] + without_first(self.order, id) } else { self.order },
            ..self
        }.restack()
    }

    /// The window made to stay on top, or let go of.
    pub open spec fn pin_toggled(self, id: u64) -> State {
        if self.has(id) {
            self.with_window(id, Window { always_on_top: !self.windows[id].always_on_top, ..self.windows[id] })
        } else {
            self
        }.restack()
    }

    // ---- Workspaces ----------------------------------------------------------

    /// The workspace that a monitor shows.
    pub open spec fn shown_on(self, monitor: u32) -> usize {
        if self.settings.per_monitor_workspaces && self.monitor_workspaces.contains_key(monitor) {
            self.monitor_workspaces[monitor]
        } else {
            self.current
        }
    }

    /// The workspace with the id; what it is where there is none is open.
    pub open spec fn workspace_with(self, id: usize) -> WorkspaceView {
        choose|w: WorkspaceView| self.workspaces.contains(w) && w.id == id
    }

    /// What holds of the windows that show: those on the workspace that their
    /// monitor shows, unless minimized.
    pub open spec fn on_show(self) -> spec_fn(u64) -> bool {
        |id: u64| self.windows[id].workspace == self.shown_on(self.windows[id].monitor) && !self.windows[id].minimized
    }

    /// Whether a workspace shows on any monitor.
    pub open spec fn visible_somewhere(self, id: usize) -> bool {
        if self.settings.per_monitor_workspaces {
            exists|k: int| 0 <= k < self.monitors.len() && self.shown_on((#[trigger] self.monitors[k]).id) == id
        } else {
            id == self.current
        }
    }

    /// A window moved to a workspace.
    pub open spec fn moved_to_workspace(self, id: u64, workspace: usize) -> State {
        if self.has(id) {
            self.with_window(id, Window { workspace, ..self.windows[id] })
        } else {
            self
        }
    }

    /// One workspace with another layout.
    pub open spec fn with_layout(self, id: usize, layout: Seq<char>) -> State {
        State { workspaces: self.workspaces.map_values(relaid(id, layout)), ..self }
    }

    /// Without one workspace. Its windows move to another one, and so does the
    /// user. The last workspace stays.
    pub open spec fn without_workspace(self, id: usize) -> State {
        let to = first_other(self.workspaces, id);
        if self.workspaces.len() <= 1 {
            self
        } else {
            State {
                windows: each(self.windows, moved_between(id, to)),
                workspaces: self.workspaces.filter(other_workspace(id)),
                current: if self.current == id { to } else { self.current },
                ..self
            }
        }
    }

    /// The windows of a workspace that are not minimized, the topmost first.
    pub open spec fn front_to_back(self, workspace: usize) -> Seq<u64> {
        self.order.reverse().filter(shown_in(self.windows, workspace))
    }

    /// The topmost window of a workspace that is not minimized.
    pub open spec fn top_of(self, workspace: usize) -> Option<u64> {
        if self.front_to_back(workspace).len() > 0 {
            Some(self.front_to_back(workspace)[0])
        } else {
            None
        }
    }

    /// Whether the focused window is on the workspace.
    pub open spec fn focus_is_on(self, workspace: usize) -> bool {
        self.focused matches Some(f) && self.has(f) && self.windows[f].workspace == workspace
    }

    /// The focus moved to the topmost window of the workspace, unless it is on
    /// the workspace already.
    pub open spec fn refocused(self, workspace: usize) -> State {
        State {
            focused: if self.focus_is_on(workspace) { self.focused } else { self.top_of(workspace) },
            ..self
        }
    }

    /// Where switching to a workspace leads.
    pub open spec fn switch_target(self, id: usize) -> usize {
        if self.settings.auto_back_and_forth && id == self.current {
            self.previous
        } else {
            id
        }
    }

    /// The current workspace switched.
    pub open spec fn switched(self, id: usize) -> State {
        let target = self.switch_target(id);
        if self.workspace_exists(target) && target != self.current {
            State { previous: self.current, current: target, ..self }.refocused(target)
        } else {
            self
        }
    }

    /// Where switching one monitor to a workspace leads.
    pub open spec fn switch_target_on(self, id: usize, monitor: u32) -> usize {
        if self.settings.auto_back_and_forth && id == self.shown_on(monitor) {
            self.previous
        } else {
            id
        }
    }

    /// The workspace of one monitor switched, or the current one where all
    /// monitors show the same.
    pub open spec fn switched_on(self, id: usize, monitor: u32) -> State {
        let target = self.switch_target_on(id, monitor);
        if !self.settings.per_monitor_workspaces {
            self.switched(id)
        } else if self.workspace_exists(target) && target != self.shown_on(monitor) {
            State {
                previous: self.shown_on(monitor),
                monitor_workspaces: self.monitor_workspaces.insert(monitor, target),
                ..self
            }.refocused(target)
        } else {
            self
        }
    }

    // ---- Focus ---------------------------------------------------------------

    /// The state in which the window is focused and not minimized, before the
    /// workspace follows it.
    pub open spec fn marked_focused(self, id: u64) -> State {
        State {
            focused: Some(id),
            windows: self.windows.insert(id, Window { minimized: false, ..self.windows[id] }),
            ..self
        }
    }

    /// The workspace switched to that of the window, unless it shows already.
    pub open spec fn followed(self, id: u64) -> State {
        let w = self.windows[id];
        if w.workspace != self.shown_on(w.monitor) {
            self.switched_on(w.workspace, w.monitor)
        } else {
            self
        }
    }

    /// The window focused, shown and raised, with its workspace.
    pub open spec fn focused_on(self, id: u64) -> State {
        if self.has(id) {
            self.marked_focused(id).followed(id).raised(id)
        } else {
            self
        }
    }

    /// The windows that the focus goes round.
    pub open spec fn ring(self) -> Seq<u64> {
        self.created.filter(shown_in(self.windows, self.current))
    }

    /// The place in the ring after the focused window, or before it.
    pub open spec fn next_in_ring(self, forward: bool) -> int {
        let ids = self.ring();
        match self.focused {
            Some(f) => {
                let p = position_in(ids, f);
                if p < 0 {
                    0
                } else if forward {
                    (p + 1) % (ids.len() as int)
                } else {
                    (p + ids.len() - 1) % (ids.len() as int)
                }
            },
            None => 0,
        }
    }

    /// The focus moved on in the ring.
    pub open spec fn cycled(self, forward: bool) -> State {
        if self.ring().len() == 0 {
            State { focused: None, ..self }
        } else {
            self.focused_on(self.ring()[self.next_in_ring(forward)])
        }
    }

    /// The nearest window in a direction from the focused one.
    pub open spec fn neighbour(self, dir: Direction) -> Option<u64> {
        match self.focused {
            Some(f) => if self.has(f) {
                nearest(self.windows, self.ring(), f, dir)
            } else {
                None
            },
            None => None,
        }
    }

    /// Two windows having traded places, on the screen and in the stack.
    pub open spec fn swapped(self, a: u64, b: u64) -> State {
        State {
            order: self.order.update(position_in(self.order, a), b).update(position_in(self.order, b), a),
            ..self.with_geometry(a, self.windows[b].geometry).with_geometry(b, self.windows[a].geometry)
        }
    }

    /// A window moved to the edge of its monitor that lies in the direction.
    pub open spec fn pushed(self, id: u64, dir: Direction) -> State {
        let w = self.windows[id];
        match self.monitor_for(w.monitor) {
            Some(m) => self.with_geometry(id, at_edge(w.geometry, m.geometry, dir)),
            None => self,
        }
    }

    // ---- Window operations -----------------------------------------------------

    /// A window put through `f`, if there is one with the id.
    pub open spec fn changed(self, id: u64, f: spec_fn(Window) -> Window) -> State {
        if self.has(id) {
            self.with_window(id, f(self.windows[id]))
        } else {
            self
        }
    }

    pub open spec fn minimized(self, id: u64) -> State {
        let s = if self.has(id) {
            self.with_window(id, Window { minimized: true, ..self.windows[id] })
        } else {
            self
        };
        if self.focused == Some(id) {
            s.cycled(true)
        } else {
            s
        }
    }

    pub open spec fn restored(self, id: u64) -> State {
        self.changed(id, |w: Window| Window { minimized: false, ..w })
    }

    /// A window in the scratchpad pool.
    pub open spec fn pooled(self, id: u64) -> State {
        self.changed(id, |w: Window| Window { scratchpad: true, floating: true, ..w })
    }

    pub open spec fn unpooled(self, id: u64) -> State {
        self.changed(id, |w: Window| Window { scratchpad: false, ..w })
    }

    /// The hidden window of the scratchpad pool with the highest id. Ids
    /// ascend, so it is the newest.
    pub open spec fn newest_hidden(self) -> Option<u64> {
        highest(self.created.filter(hidden_in(self.windows)))
    }

    /// The scratchpad toggled.
    pub open spec fn scratchpad_toggled(self) -> State {
        let shown = self.focused matches Some(f) && self.windows[f].scratchpad && !self.windows[f].minimized;
        if shown {
            self.minimized(self.focused->Some_0)
        } else {
            match self.newest_hidden() {
                Some(id) => self.moved_to_workspace(id, self.current).restored(id).focused_on(id),
                None => self,
            }
        }
    }

    pub open spec fn maximize_toggled(self, id: u64) -> State {
        let area = match self.monitor_for(self.windows[id].monitor) {
            Some(m) => Some(m.maximize_geometry),
            None => None,
        };
        self.changed(id, |w: Window| maximize_toggled(w, area, self.settings.animations_enabled))
    }

    pub open spec fn fullscreen_toggled(self, id: u64) -> State {
        let area = match self.monitor_for(self.windows[id].monitor) {
            Some(m) => Some(m.full_geometry),
            None => None,
        };
        self.changed(id, |w: Window| fullscreen_toggled(w, area, self.settings.animations_enabled))
    }

    pub open spec fn snapped(self, id: u64, zone: SnapZoneKind) -> State {
        match self.monitor_for(self.windows[id].monitor) {
            Some(m) => self.changed(
                id,
                |w: Window| snapped_to(w, zone.zone(m.geometry), self.settings.animations_enabled),
            ),
            None => self,
        }
    }

    pub open spec fn float_toggled(self, id: u64) -> State {
        self.changed(id, |w: Window| Window { floating: !w.floating, ..w })
    }

    pub open spec fn moved(self, id: u64, x: i32, y: i32) -> State {
        self.changed(id, |w: Window| Window { geometry: Rect { x, y, ..w.geometry }, ..w })
    }

    /// A window resized, to no less than its minimum.
    pub open spec fn resized(self, id: u64, width: u32, height: u32) -> State {
        self.changed(
            id,
            |w: Window|
                Window {
                    geometry: Rect {
                        width: int_max(width as int, w.min_size.0 as int) as u32,
                        height: int_max(height as int, w.min_size.1 as int) as u32,
                        ..w.geometry
                    },
                    ..w
                },
        )
    }
}

// ---- Layouts -------------------------------------------------------------------

/// What holds of the windows of a workspace that its layout places.
pub open spec fn tiled_in(windows: Map<u64, Window>, workspace: usize) -> spec_fn(u64) -> bool {
    |id: u64|
        windows[id].workspace == workspace && !windows[id].minimized && !windows[id].floating
            && !windows[id].fullscreen
}

/// What holds of those of them that belong to the monitor.
pub open spec fn tiled_on(windows: Map<u64, Window>, workspace: usize, monitor: u32) -> spec_fn(u64) -> bool {
    |id: u64|
        windows[id].workspace == workspace && !windows[id].minimized && !windows[id].floating
            && !windows[id].fullscreen && windows[id].monitor == monitor
}

pub open spec fn ascending(s: Seq<u32>) -> bool {
    forall|i: int, j: int| 0 <= i < j < s.len() ==> #[trigger] s[i] < #[trigger] s[j]
}

/// A list in ascending order with `x` in its place, once.
pub open spec fn filed(s: Seq<u32>, x: u32) -> Seq<u32> {
    s.filter(|y: u32| y < x).push(x) + s.filter(|y: u32| y > x)
}

/// The monitors of the windows, in ascending order, each once.
pub open spec fn filed_all(windows: Map<u64, Window>, ids: Seq<u64>) -> Seq<u32>
    decreases ids.len(),
{
    if ids.len() == 0 {
        Seq::empty()
    } else {
        filed(filed_all(windows, ids.drop_last()), windows[ids.last()].monitor)
    }
}

/// Picking from an ascending list leaves one, of the elements that were picked.
proof fn lemma_picked(s: Seq<u32>, p: spec_fn(u32) -> bool)
    requires
        ascending(s),
    ensures
        ascending(s.filter(p)),
        forall|y: u32| #[trigger] s.filter(p).contains(y) <==> s.contains(y) && p(y),
    decreases s.len(),
{
    reveal(Seq::filter);
    let f = s.filter(p);
    if s.len() > 0 {
        let front = s.drop_last();
        let g = front.filter(p);
        lemma_picked(front, p);
        assert(s[s.len() - 1] == s.last());
        assert forall|y: u32| #[trigger] f.contains(y) <==> s.contains(y) && p(y) by {
            if f.contains(y) {
                let k = choose|k: int| 0 <= k < f.len() && f[k] == y;
                if k < g.len() {
                    assert(g[k] == y);
                    assert(g.contains(y));
                    let m = choose|m: int| 0 <= m < front.len() && front[m] == y;
                    assert(s[m] == y);
                }
            }
            if s.contains(y) && p(y) {
                let m = choose|m: int| 0 <= m < s.len() && s[m] == y;
                if m < front.len() {
                    assert(front[m] == y);
                    assert(g.contains(y));
                    let k = choose|k: int| 0 <= k < g.len() && g[k] == y;
                    assert(f[k] == y);
                } else {
                    assert(f[f.len() - 1] == y);
                }
            }
        }
        assert forall|i: int, j: int| 0 <= i < j < f.len() implies #[trigger] f[i] < #[trigger] f[j] by {
            if j < g.len() {
                assert(g[i] < g[j]);
            } else {
                assert(g.contains(g[i]));
                let m = choose|m: int| 0 <= m < front.len() && front[m] == g[i];
                assert(s[m] < s[s.len() - 1]);
            }
        }
    }
}

/// Filing keeps the order, and adds what is filed.
pub proof fn lemma_filed(s: Seq<u32>, x: u32)
    requires
        ascending(s),
    ensures
        ascending(filed(s, x)),
        forall|y: u32| #[trigger] filed(s, x).contains(y) <==> s.contains(y) || y == x,
{
    let lower = |y: u32| y < x;
    let upper = |y: u32| y > x;
    lemma_picked(s, lower);
    lemma_picked(s, upper);
    let a = s.filter(lower);
    let b = s.filter(upper);
    let f = filed(s, x);
    assert forall|y: u32| #[trigger] f.contains(y) <==> s.contains(y) || y == x by {
        if f.contains(y) {
            let k = choose|k: int| 0 <= k < f.len() && f[k] == y;
            if k < a.len() {
                assert(a[k] == y);
                assert(a.contains(y));
            } else if k > a.len() {
                assert(b[k - a.len() - 1] == y);
                assert(b.contains(y));
            }
        }
        if s.contains(y) && y < x {
            assert(a.contains(y));
            let k = choose|k: int| 0 <= k < a.len() && a[k] == y;
            assert(f[k] == y);
        }
        if s.contains(y) && y > x {
            assert(b.contains(y));
            let k = choose|k: int| 0 <= k < b.len() && b[k] == y;
            assert(f[a.len() + 1 + k] == y);
        }
        assert(f[a.len() as int] == x);
    }
    assert forall|i: int, j: int| 0 <= i < j < f.len() implies #[trigger] f[i] < #[trigger] f[j] by {
        let n = a.len();
        if i < n {
            assert(a.contains(a[i]));
        }
        if j > n {
            assert(b.contains(b[j - n - 1]));
        }
        if j < n {
            assert(a[i] < a[j]);
        }
        if i > n {
            assert(b[i - n - 1] < b[j - n - 1]);
        }
    }
}

/// Whether the list has the entries of the table, each once.
pub open spec fn listed(list: Seq<(u64, Rect)>, slots: Map<u64, Rect>) -> bool {
    &&& forall|k: int|
        0 <= k < list.len() ==> slots.contains_key((#[trigger] list[k]).0) && slots[list[k].0] == list[k].1
    &&& forall|id: u64| #[trigger]
        slots.contains_key(id) ==> exists|k: int| 0 <= k < list.len() && (#[trigger] list[k]).0 == id
    &&& forall|k: int, l: int| 0 <= k < l < list.len() ==> (#[trigger] list[k]).0 != (#[trigger] list[l]).0
}

/// Whether each list has the entries of its table.
pub open spec fn listed_all(lists: Seq<Vec<(u64, Rect)>>, tables: Seq<Map<u64, Rect>>) -> bool {
    lists.len() == tables.len() && forall|k: int|
        0 <= k < lists.len() ==> listed((#[trigger] lists[k])@, tables[k])
}

/// The lists one after the other.
pub open spec fn in_turn(lists: Seq<Vec<(u64, Rect)>>) -> Seq<(u64, Rect)>
    decreases lists.len(),
{
    if lists.len() == 0 {
        Seq::empty()
    } else {
        in_turn(lists.drop_last()) + lists.last()@
    }
}

/// Windows with the geometries that a table has for them.
pub open spec fn settled(windows: Map<u64, Window>, slots: Map<u64, Rect>) -> Map<u64, Window> {
    Map::new(
        |id: u64| windows.contains_key(id),
        |id: u64|
            if slots.contains_key(id) {
                Window { geometry: slots[id], ..windows[id] }
            } else {
                windows[id]
            },
    )
}

/// Windows with the geometries of one table after the other.
pub open spec fn settled_all(windows: Map<u64, Window>, tables: Seq<Map<u64, Rect>>) -> Map<u64, Window>
    decreases tables.len(),
{
    if tables.len() == 0 {
        windows
    } else {
        settled(settled_all(windows, tables.drop_last()), tables.last())
    }
}

/// Windows with the geometries that a list has for them.
pub open spec fn settled_as(windows: Map<u64, Window>, list: Seq<(u64, Rect)>) -> Map<u64, Window>
    decreases list.len(),
{
    if list.len() == 0 {
        windows
    } else {
        let m = settled_as(windows, list.drop_last());
        let (id, geometry) = list.last();
        if m.contains_key(id) {
            m.insert(id, Window { geometry, ..m[id] })
        } else {
            m
        }
    }
}

/// What a list does to each window.
proof fn lemma_settled_prefix(windows: Map<u64, Window>, list: Seq<(u64, Rect)>)
    requires
        forall|k: int, l: int| 0 <= k < l < list.len() ==> (#[trigger] list[k]).0 != (#[trigger] list[l]).0,
    ensures
        forall|id: u64| #[trigger] settled_as(windows, list).contains_key(id) <==> windows.contains_key(id),
        forall|id: u64, k: int|
            windows.contains_key(id) && 0 <= k < list.len() && list[k].0 == id ==> #[trigger] settled_as(
                windows,
                list,
            )[id] == (Window { geometry: (#[trigger] list[k]).1, ..windows[id] }),
        forall|id: u64|
            windows.contains_key(id) && (forall|k: int| 0 <= k < list.len() ==> (#[trigger] list[k]).0 != id)
                ==> #[trigger] settled_as(windows, list)[id] == windows[id],
    decreases list.len(),
{
    if list.len() > 0 {
        let front = list.drop_last();
        let last = list.last();
        assert forall|k: int, l: int| 0 <= k < l < front.len() implies (#[trigger] front[k]).0 != (
        #[trigger] front[l]).0 by {
            assert(list[k].0 != list[l].0);
        }
        lemma_settled_prefix(windows, front);
        let m = settled_as(windows, front);
        let r = settled_as(windows, list);
        assert(list[list.len() - 1] == last);
        assert forall|k: int| 0 <= k < front.len() implies (#[trigger] front[k]).0 != last.0 by {
            assert(list[k].0 != list[list.len() - 1].0);
        }
        if m.contains_key(last.0) {
            assert(m[last.0] == windows[last.0]);
            let v = Window { geometry: last.1, ..m[last.0] };
            assert(r == m.insert(last.0, v));
        }
        assert forall|id: u64, k: int|
            windows.contains_key(id) && 0 <= k < list.len() && list[k].0 == id implies #[trigger] r[id] == (Window {
            geometry: (#[trigger] list[k]).1,
            ..windows[id]
        }) by {
            if k < front.len() {
                assert(front[k] == list[k]);
            }
        }
        assert forall|id: u64|
            windows.contains_key(id) && (forall|k: int| 0 <= k < list.len() ==> (#[trigger] list[k]).0 != id)
                implies #[trigger] r[id] == windows[id] by {
            assert forall|k: int| 0 <= k < front.len() implies (#[trigger] front[k]).0 != id by {
                assert(list[k].0 != id);
            }
        }
    }
}

/// A list of a table's entries does what the table says.
pub proof fn lemma_settled_as(windows: Map<u64, Window>, list: Seq<(u64, Rect)>, slots: Map<u64, Rect>)
    requires
        listed(list, slots),
    ensures
        settled_as(windows, list) == settled(windows, slots),
{
    lemma_settled_prefix(windows, list);
    let a = settled_as(windows, list);
    let b = settled(windows, slots);
    assert forall|id: u64| windows.contains_key(id) implies #[trigger] a[id] == b[id] by {
        if slots.contains_key(id) {
            let k = choose|k: int| 0 <= k < list.len() && (#[trigger] list[k]).0 == id;
            assert(list[k].0 == id);
        } else {
            assert forall|k: int| 0 <= k < list.len() implies (#[trigger] list[k]).0 != id by {
                assert(slots.contains_key(list[k].0));
            }
        }
    }
    assert(a =~= b);
}

impl State {
    /// The monitors that have windows of a workspace to tile, in order.
    pub open spec fn monitors_used(self, workspace: usize) -> Seq<u32> {
        filed_all(self.windows, self.order.filter(tiled_in(self.windows, workspace)))
    }

    /// What a layout gives to the windows of a workspace on a monitor.
    pub open spec fn slots_on(self, workspace: usize, layout: Seq<char>, monitor: u32) -> Map<u64, Rect> {
        match self.monitor_for(monitor) {
            Some(m) => self.layouts[layout].layout.slots(
                self.order.filter(tiled_on(self.windows, workspace, monitor)),
                m,
                self.settings.tiling,
            ),
            None => Map::empty(),
        }
    }

    /// What a layout gives to the windows of a workspace, monitor by monitor.
    pub open spec fn placements(self, workspace: usize, layout: Seq<char>) -> Seq<Map<u64, Rect>> {
        self.monitors_used(workspace).map_values(|m: u32| self.slots_on(workspace, layout, m))
    }

    /// Whether the workspace exists, with a layout that is registered.
    pub open spec fn arrangeable(self, workspace: usize) -> bool {
        self.workspace_exists(workspace) && self.layouts.contains_key(self.workspace_with(workspace).layout)
    }

    /// A workspace laid out.
    pub open spec fn arranged(self, workspace: usize) -> State {
        if self.arrangeable(workspace) {
            State {
                windows: settled_all(
                    self.windows,
                    self.placements(workspace, self.workspace_with(workspace).layout),
                ),
                ..self
            }
        } else {
            self
        }
    }
}

// ---- The pointer -------------------------------------------------------------

/// The frame of a window at `rect`.
pub open spec fn frame_of(settings: Settings, w: Window, rect: Rect) -> Frame {
    Frame {
        rect,
        decorated: w.decorated,
        border_width: w.border_width,
        resize_margin: match w.resize_margin {
            Some(m) => m,
            None => settings.resize_margin,
        },
        buttons_left: settings.theme.buttons_left,
        order_override: settings.theme.button_order,
        is_dialog: w.is_dialog,
        show_maximize: !(settings.theme.dynamic_buttons && !w.resizable),
    }
}

/// The geometries of the windows with the ids.
pub open spec fn geometries(ids: Seq<u64>, windows: Map<u64, Window>) -> Seq<Rect> {
    ids.map_values(|id: u64| windows[id].geometry)
}

/// Whether `rects` are what `f` gave for the windows and their geometries.
pub open spec fn answered<F: Fn(u64, Rect) -> Rect>(
    f: F,
    ids: Seq<u64>,
    windows: Map<u64, Window>,
    rects: Seq<Rect>,
) -> bool {
    rects.len() == ids.len() && forall|k: int|
        0 <= k < ids.len() ==> call_ensures(f, (ids[k], windows[ids[k]].geometry), #[trigger] rects[k])
}

/// The first window, at its rectangle, whose frame the point is on, unless the
/// content of one before it is there.
pub open spec fn first_hit(s: State, ids: Seq<u64>, rects: Seq<Rect>, x: i32, y: i32) -> Option<(u64, TitlebarHit)>
    decreases ids.len(),
{
    if ids.len() == 0 {
        None
    } else {
        match frame_of(s.settings, s.windows[ids[0]], rects[0]).hit(x as int, y as int) {
            Some(h) => Some((ids[0], h)),
            None => if rects[0].covers(x as int, y as int) {
                None
            } else {
                first_hit(s, ids.skip(1), rects.skip(1), x, y)
            },
        }
    }
}

/// The first window that the point is on.
pub open spec fn topmost_at(windows: Map<u64, Window>, ids: Seq<u64>, x: i32, y: i32) -> Option<u64>
    decreases ids.len(),
{
    if ids.len() == 0 {
        None
    } else if windows[ids[0]].geometry.covers(x as int, y as int) {
        Some(ids[0])
    } else {
        topmost_at(windows, ids.skip(1), x, y)
    }
}

/// The corner of a rectangle nearest to a point.
pub open spec fn corner_of(r: Rect, x: i32, y: i32) -> ResizeEdge {
    match (x < centre(r).0, y < centre(r).1) {
        (true, true) => ResizeEdge::TopLeft,
        (false, true) => ResizeEdge::TopRight,
        (true, false) => ResizeEdge::BottomLeft,
        (false, false) => ResizeEdge::BottomRight,
    }
}

impl State {
    /// The topmost window of the current workspace whose frame the point is on.
    pub open spec fn hit_at(self, x: i32, y: i32) -> Option<(u64, TitlebarHit)> {
        let ids = self.front_to_back(self.current);
        first_hit(self, ids, geometries(ids, self.windows), x, y)
    }
}

/// What holds of the hidden windows of the scratchpad pool.
pub open spec fn hidden_in(windows: Map<u64, Window>) -> spec_fn(u64) -> bool {
    |id: u64| windows[id].scratchpad && windows[id].minimized
}

/// The highest of the ids.
pub open spec fn highest(ids: Seq<u64>) -> Option<u64>
    decreases ids.len(),
{
    if ids.len() == 0 {
        None
    } else {
        match highest(ids.drop_last()) {
            Some(b) => if b < ids.last() { Some(ids.last()) } else { Some(b) },
            None => Some(ids.last()),
        }
    }
}

/// No id is higher than the highest.
pub proof fn lemma_highest(ids: Seq<u64>)
    ensures
        match highest(ids) {
            Some(b) => ids.contains(b) && forall|k: int| 0 <= k < ids.len() ==> #[trigger] ids[k] <= b,
            None => ids.len() == 0,
        },
    decreases ids.len(),
{
    if ids.len() > 0 {
        let front = ids.drop_last();
        lemma_highest(front);
        if let Some(b) = highest(front) {
            let k = choose|k: int| 0 <= k < front.len() && front[k] == b;
            assert(ids[k] == b);
        }
        assert(ids[ids.len() - 1] == ids.last());
        assert forall|k: int| 0 <= k < ids.len() implies #[trigger] ids[k] <= highest(ids)->Some_0 by {
            if k < front.len() {
                assert(front[k] == ids[k]);
            }
        }
    }
}

/// A window in a snap zone.
pub open spec fn snapped_to(w: Window, zone: Rect, animations: bool) -> Window {
    let left = w.maximized || w.fullscreen;
    let moved = Window {
        geometry: zone,
        maximized: false,
        fullscreen: false,
        restore_geometry: if left { None } else { w.restore_geometry },
        ..w
    };
    animated(moved, w.geometry, animations)
}

/// `w` with its geometry, noting where an animated move started.
pub open spec fn animated(w: Window, from: Rect, animations: bool) -> Window {
    Window { anim_from: if animations && w.geometry != from { Some(from) } else { w.anim_from }, ..w }
}

/// A window after its maximize button.
pub open spec fn maximize_toggled(w: Window, area: Option<Rect>, animations: bool) -> Window {
    let moved = if w.maximized {
        Window {
            geometry: match w.restore_geometry {
                Some(r) => r,
                None => w.geometry,
            },
            restore_geometry: None,
            maximized: false,
            ..w
        }
    } else {
        match area {
            Some(area) => Window { restore_geometry: Some(w.geometry), geometry: area, maximized: true, ..w },
            None => w,
        }
    };
    animated(moved, w.geometry, animations)
}

/// A window after its fullscreen key.
pub open spec fn fullscreen_toggled(w: Window, area: Option<Rect>, animations: bool) -> Window {
    let moved = if w.fullscreen {
        Window {
            geometry: match w.restore_geometry {
                Some(r) => r,
                None => w.geometry,
            },
            restore_geometry: None,
            fullscreen: false,
            decorated: match w.restore_decorated {
                Some(d) => d,
                None => true,
            },
            restore_decorated: None,
            ..w
        }
    } else {
        match area {
            Some(area) => Window {
                restore_geometry: if w.maximized { w.restore_geometry } else { Some(w.geometry) },
                maximized: false,
                geometry: area,
                fullscreen: true,
                restore_decorated: Some(w.decorated),
                decorated: false,
                ..w
            },
            None => w,
        }
    };
    animated(moved, w.geometry, animations)
}

impl State {
    /// Every window of the lists of a well-formed state exists.
    pub proof fn lemma_created_exist(self)
        requires
            self.wf(),
        ensures
            forall|k: int| 0 <= k < self.created.len() ==> self.has(#[trigger] self.created[k]),
            forall|k: int| 0 <= k < self.order.len() ==> self.has(#[trigger] self.order[k]),
    {
        reveal(windows_ok);
        assert forall|k: int| 0 <= k < self.created.len() implies self.has(#[trigger] self.created[k]) by {
            assert(self.created.contains(self.created[k]));
        }
        assert forall|k: int| 0 <= k < self.order.len() implies self.has(#[trigger] self.order[k]) by {
            assert(self.order.contains(self.order[k]));
        }
    }

    /// The stacking order holds windows that exist, also from its end.
    pub proof fn lemma_reversed_order(self)
        requires
            self.wf(),
        ensures
            forall|k: int| 0 <= k < self.order.reverse().len() ==> self.has(#[trigger] self.order.reverse()[k]),
    {
        self.lemma_created_exist();
        assert forall|k: int| 0 <= k < self.order.reverse().len() implies self.has(#[trigger] self.order.reverse()[k]) by {
            assert(self.has(self.order[self.order.len() - 1 - k]));
        }
    }

    /// Windows picked from ones that exist exist.
    pub proof fn lemma_filtered_exist(self, ids: Seq<u64>, p: spec_fn(u64) -> bool)
        requires
            forall|k: int| 0 <= k < ids.len() ==> self.has(#[trigger] ids[k]),
        ensures
            forall|k: int| 0 <= k < ids.filter(p).len() ==> self.has(#[trigger] ids.filter(p)[k]),
    {
        lemma_filter(ids, p);
        assert forall|k: int| 0 <= k < ids.filter(p).len() implies self.has(#[trigger] ids.filter(p)[k]) by {
            assert(ids.filter(p).contains(ids.filter(p)[k]));
            assert(ids.contains(ids.filter(p)[k]));
        }
    }

    /// Ids tell workspaces apart.
    pub proof fn lemma_workspace_with(self, i: int)
        requires
            self.wf(),
            0 <= i < self.workspaces.len(),
        ensures
            self.workspace_with(self.workspaces[i].id) == self.workspaces[i],
            self.workspaces.contains(self.workspaces[i]),
    {
        reveal(workspaces_ok);
        let id = self.workspaces[i].id;
        assert(self.workspaces.contains(self.workspaces[i]) && self.workspaces[i].id == id);
        let w = self.workspace_with(id);
        let k = choose|k: int| 0 <= k < self.workspaces.len() && self.workspaces[k] == w;
        if k < i {
            assert(self.workspaces[k].id != self.workspaces[i].id);
        }
        if i < k {
            assert(self.workspaces[i].id != self.workspaces[k].id);
        }
    }
}

// ---- What every operation keeps ------------------------------------------------

/// Changing what workspaces are called, or how they are laid out, keeps the
/// state well-formed.
pub proof fn lemma_relabelled_wf(s: State, f: spec_fn(WorkspaceView) -> WorkspaceView)
    requires
        s.wf(),
        forall|w: WorkspaceView| (#[trigger] f(w)).id == w.id,
    ensures
        (State { workspaces: s.workspaces.map_values(f), ..s }).wf(),
{
    reveal(workspaces_ok);
    let t = s.workspaces.map_values(f);
    let i = choose|i: int| 0 <= i < s.workspaces.len() && (#[trigger] s.workspaces[i]).id == s.current;
    assert(t[i].id == s.current);
}

/// Adding a workspace keeps the state well-formed.
pub proof fn lemma_pushed_workspace_wf(s: State, name: Seq<char>, layout: Seq<char>)
    requires
        s.wf(),
        s.next_workspace_id < usize::MAX,
    ensures
        !s.workspace_exists(s.next_workspace_id),
        (State {
            workspaces: s.workspaces.push(WorkspaceView { id: s.next_workspace_id, name, layout }),
            next_workspace_id: (s.next_workspace_id + 1) as usize,
            ..s
        }).wf(),
{
    reveal(workspaces_ok);
    let after = s.workspaces.push(WorkspaceView { id: s.next_workspace_id, name, layout });
    let i = choose|i: int| 0 <= i < s.workspaces.len() && (#[trigger] s.workspaces[i]).id == s.current;
    assert(after[i].id == s.current);
}

/// Removing a workspace keeps the state well-formed.
pub proof fn lemma_without_workspace_wf(s: State, id: usize)
    requires
        s.wf(),
    ensures
        s.without_workspace(id).wf(),
        s.workspaces.len() > 1 ==> exists|i: int| 0 <= i < s.workspaces.len() && (#[trigger] s.workspaces[i]).id != id,
{
    reveal(workspaces_ok);
    if s.workspaces.len() > 1 {
        assert(s.workspaces[0].id != s.workspaces[1].id);
        lemma_first_other(s.workspaces, id);
        lemma_other_workspaces(s.workspaces, id);
        let to = first_other(s.workspaces, id);
        let t = s.without_workspace(id);
        lemma_each_wf(s, moved_between(id, to));
        let f = t.workspaces;
        assert(workspace_in(f, t.current)) by {
            let i = choose|i: int| 0 <= i < s.workspaces.len() && (#[trigger] s.workspaces[i]).id == t.current;
            assert(s.workspaces.contains(s.workspaces[i]));
            assert(f.contains(s.workspaces[i]));
            let k = choose|k: int| 0 <= k < f.len() && f[k] == s.workspaces[i];
            assert(f[k].id == t.current);
        }
        assert forall|i: int| 0 <= i < f.len() implies (#[trigger] f[i]).id < t.next_workspace_id by {
            assert(f.contains(f[i]));
            let k = choose|k: int| 0 <= k < s.workspaces.len() && s.workspaces[k] == f[i];
            assert(s.workspaces[k].id < s.next_workspace_id);
        }
    }
}

/// The orders stay right when a window is replaced.
pub proof fn lemma_with_window_wf(s: State, id: u64, w: Window)
    requires
        s.wf(),
        s.has(id),
    ensures
        s.with_window(id, w).wf(),
{
    reveal(windows_ok);
}

/// Restacking keeps the windows of the stack.
pub proof fn lemma_restack(windows: Map<u64, Window>, order: Seq<u64>)
    ensures
        forall|x: u64| #[trigger] restacked(windows, order).contains(x) <==> order.contains(x),
{
    lemma_filter(order, loose_in(windows));
    lemma_filter(order, pinned_in(windows));
    lemma_concat(order.filter(loose_in(windows)), order.filter(pinned_in(windows)));
}

pub proof fn lemma_restack_wf(s: State)
    requires
        s.wf(),
    ensures
        s.restack().wf(),
{
    reveal(windows_ok);
    lemma_restack(s.windows, s.order);
}

/// The stack stays right when a window is moved to one of its ends.
pub proof fn lemma_moved_ok(s: State, id: u64)
    requires
        s.wf(),
        s.has(id),
    ensures
        windows_ok(s.windows, s.created, without_first(s.order, id).push(id), s.focused),
        windows_ok(s.windows, s.created, seq![id] + without_first(s.order, id), s.focused),
{
    reveal(windows_ok);
    assert(s.order.contains(id));
    lemma_without_first(s.order, id);
    lemma_push(without_first(s.order, id), id);
    assert forall|x: u64| #[trigger] seq![id].contains(x) <==> x == id by {
        assert(seq![id][0] == id);
    }
    lemma_concat(seq![id], without_first(s.order, id));
}

/// Raising and lowering keep the state well-formed.
pub proof fn lemma_raised_wf(s: State, id: u64)
    requires
        s.wf(),
    ensures
        s.raised(id).wf(),
        s.lowered(id).wf(),
{
    if s.has(id) {
        lemma_moved_ok(s, id);
        let up = State { order: without_first(s.order, id).push(id), ..s };
        let down = State { order: seq![id] + without_first(s.order, id), ..s };
        lemma_restack_wf(up);
        lemma_restack_wf(down);
    } else {
        lemma_restack_wf(s);
    }
}

/// The topmost window of a workspace is one of its windows.
pub proof fn lemma_top_of(s: State, workspace: usize)
    requires
        s.wf(),
    ensures
        s.top_of(workspace) matches Some(id) ==> s.has(id) && s.windows[id].workspace == workspace
            && !s.windows[id].minimized,
        forall|id: u64| #[trigger] s.front_to_back(workspace).contains(id) ==> s.has(id),
{
    reveal(windows_ok);
    lemma_filter(s.order.reverse(), shown_in(s.windows, workspace));
    assert forall|id: u64| #[trigger] s.front_to_back(workspace).contains(id) implies s.has(id) by {
        let r = s.order.reverse();
        assert(r.contains(id));
        let i = choose|i: int| 0 <= i < r.len() && r[i] == id;
        assert(s.order[s.order.len() - 1 - i] == id);
        assert(s.order.contains(id));
    }
    if s.front_to_back(workspace).len() > 0 {
        assert(s.front_to_back(workspace).contains(s.front_to_back(workspace)[0]));
    }
}

pub proof fn lemma_refocused_wf(s: State, workspace: usize)
    requires
        s.wf(),
    ensures
        s.refocused(workspace).wf(),
{
    lemma_top_of(s, workspace);
    reveal(windows_ok);
}

/// Switching workspaces keeps the state well-formed.
pub proof fn lemma_switched_wf(s: State, id: usize, monitor: u32)
    requires
        s.wf(),
    ensures
        s.switched(id).wf(),
        s.switched_on(id, monitor).wf(),
{
    reveal(workspaces_ok);
    let t = s.switch_target(id);
    if s.workspace_exists(t) && t != s.current {
        let next = State { previous: s.current, current: t, ..s };
        assert(next.wf());
        lemma_refocused_wf(next, t);
    }
    let u = s.switch_target_on(id, monitor);
    let next = State {
        previous: s.shown_on(monitor),
        monitor_workspaces: s.monitor_workspaces.insert(monitor, u),
        ..s
    };
    assert(next.wf());
    lemma_refocused_wf(next, u);
}

/// Focusing keeps the state well-formed.
pub proof fn lemma_focused_wf(s: State, id: u64)
    requires
        s.wf(),
    ensures
        s.focused_on(id).wf(),
        s.has(id) ==> s.marked_focused(id).wf() && s.marked_focused(id).followed(id).wf(),
{
    if s.has(id) {
        let a = s.marked_focused(id);
        assert(a.wf()) by {
            reveal(windows_ok);
        }
        let w = a.windows[id];
        lemma_switched_wf(a, w.workspace, w.monitor);
        lemma_raised_wf(a.followed(id), id);
    }
}

/// The ring holds windows only.
pub proof fn lemma_ring(s: State)
    requires
        s.wf(),
    ensures
        forall|id: u64| #[trigger] s.ring().contains(id) ==> s.has(id) && s.windows[id].workspace == s.current
            && !s.windows[id].minimized,
        forall|id: u64|
            s.has(id) && s.windows[id].workspace == s.current && !s.windows[id].minimized ==> #[trigger] s.ring().contains(
                id,
            ),
        s.ring().no_duplicates(),
        s.ring().len() > 0 ==> forall|forward: bool| 0 <= #[trigger] s.next_in_ring(forward) < s.ring().len(),
{
    reveal(windows_ok);
    lemma_filter(s.created, shown_in(s.windows, s.current));
    if let Some(f) = s.focused {
        lemma_position(s.ring(), f);
    }
    if s.ring().len() > 0 {
        assert forall|forward: bool| 0 <= #[trigger] s.next_in_ring(forward) < s.ring().len() by {
        }
    }
}

/// Moving the focus on keeps the state well-formed.
pub proof fn lemma_cycled_wf(s: State, forward: bool)
    requires
        s.wf(),
    ensures
        s.cycled(forward).wf(),
{
    lemma_ring(s);
    if s.ring().len() == 0 {
        reveal(windows_ok);
    } else {
        lemma_focused_wf(s, s.ring()[s.next_in_ring(forward)]);
    }
}

/// Two ids of a list trading places keeps the list's ids.
proof fn lemma_traded(order: Seq<u64>, i: int, j: int)
    requires
        0 <= i < order.len(),
        0 <= j < order.len(),
    ensures
        ({
            let t = order.update(i, order[j]).update(j, order[i]);
            forall|id: u64| #[trigger] t.contains(id) <==> order.contains(id)
        }),
{
    let t = order.update(i, order[j]).update(j, order[i]);
    assert forall|id: u64| #[trigger] t.contains(id) <==> order.contains(id) by {
        if t.contains(id) {
            let k = choose|k: int| 0 <= k < t.len() && t[k] == id;
            if k != i && k != j {
                assert(order[k] == id);
            }
        }
        if order.contains(id) {
            let k = choose|k: int| 0 <= k < order.len() && order[k] == id;
            if k == i {
                assert(t[j] == id);
            } else if k == j {
                assert(t[i] == id);
            } else {
                assert(t[k] == id);
            }
        }
    }
}

/// Trading places keeps the state well-formed.
pub proof fn lemma_swapped_wf(s: State, a: u64, b: u64)
    requires
        s.wf(),
        s.has(a),
        s.has(b),
    ensures
        s.swapped(a, b).wf(),
{
    let m = s.with_geometry(a, s.windows[b].geometry);
    lemma_with_window_wf(s, a, Window { geometry: s.windows[b].geometry, ..s.windows[a] });
    lemma_with_window_wf(m, b, Window { geometry: s.windows[a].geometry, ..m.windows[b] });
    let t = m.with_geometry(b, s.windows[a].geometry);
    assert(t.wf());
    assert(windows_ok(t.windows, t.created, s.swapped(a, b).order, t.focused)) by {
        reveal(windows_ok);
        assert(s.order.contains(a) && s.order.contains(b));
        lemma_position(s.order, a);
        lemma_position(s.order, b);
        lemma_traded(s.order, position_in(s.order, a), position_in(s.order, b));
    }
}

} // verus!
