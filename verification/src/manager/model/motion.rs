//! What dragging, resizing, snapping and arranging do to windows, in terms of
//! their geometries and of the pointer.
use super::super::ids::{lemma_filter, position_in};
use super::super::{monitors_ok, windows_ok, DragState, State};
use super::drag::{placed_at, top_edge_near, within_ratios};
use super::laws::lemma_own_layouts_place_only;
use super::{
    ascending, corner_of, filed_all, first_monitor, lemma_filed, lemma_first_monitor, settled_all, showing, tiled_in,
    tiled_on, with_id,
};
use crate::geometry::Rect;
use crate::ieee::Float32;
use crate::layout::{lemma_tiles, tile, Layout, MasterStackLayout, TilingConfig};
use crate::monitor::Monitor;
use crate::placement::{lemma_snaps_to_near_edges, lemma_zones_lie_where_named, SnapZoneKind, SNAP_FLYOUT_EDGE};
use crate::window::{lemma_ratio_kept, ResizeEdge, Window};
use vstd::prelude::*;

verus! {

// ---- Dragging --------------------------------------------------------------------

/// A drag starts from where the window and the pointer are, with the window
/// focused and where it was.
pub proof fn lemma_drag_starts(s: State, id: u64, x: i32, y: i32)
    requires
        s.has(id),
    ensures
        ({
            let t = s.drag_started(id, x, y);
            let g = s.windows[id].geometry;
            &&& t.drag == Some(
                DragState { window: id, start_x: x, start_y: y, orig: g, last_x: x, last_y: y },
            )
            &&& t.focused == Some(id)
            &&& t.windows[id].geometry == g
        }),
{
    let a = (State {
        drag: Some(
            DragState { window: id, start_x: x, start_y: y, orig: s.windows[id].geometry, last_x: x, last_y: y },
        ),
        ..s
    }).marked_focused(id);
    assert(a.focus_is_on(a.windows[id].workspace));
}

/// A dragged window keeps its size and is as far from where it started as the
/// pointer is, unless that would take it off the desktop: then it stops with 40
/// pixels left on it, and with its top on it.
pub proof fn lemma_drag_follows_pointer(s: State, x: i32, y: i32, other: u64)
    requires
        s.drag matches Some(d) && s.has(d.window) && other != d.window,
        s.desktop() matches Some(b) && b.fits() && b.width + s.drag->Some_0.orig.width >= 80 && b.height >= 40 && b.x
            - s.drag->Some_0.orig.width + 40 >= i32::MIN,
    ensures
        ({
            let d = s.drag->Some_0;
            let b = s.desktop()->Some_0;
            let t = s.dragged(x, y);
            let r = t.windows[d.window].geometry;
            let to_x = d.orig.x + (x - d.start_x);
            let to_y = d.orig.y + (y - d.start_y);
            &&& r.width == d.orig.width && r.height == d.orig.height
            &&& r.x > to_x ==> r.x + r.width == b.x + 40
            &&& r.x < to_x ==> r.x == b.x + b.width - 40
            &&& r.y > to_y ==> r.y == b.y
            &&& r.y < to_y ==> r.y == b.y + b.height - 40
            &&& r.x + r.width >= b.x + 40 && r.x <= b.x + b.width - 40
            &&& b.y <= r.y <= b.y + b.height - 40
            &&& t.drag == Some(DragState { last_x: x, last_y: y, ..d })
            &&& t.has(other) == s.has(other)
            &&& s.has(other) ==> t.windows[other] == s.windows[other]
        }),
{
}

/// The desktop is no larger than it has to be: each of its edges is one of a
/// monitor. The monitor with that edge: to the left, to the right, on top and at
/// the bottom.
pub proof fn lemma_desktop_edges(monitors: Seq<Monitor>) -> (k: (int, int, int, int))
    requires
        monitors_ok(monitors),
        monitors.len() > 0,
    ensures
        0 <= k.0 < monitors.len(),
        0 <= k.1 < monitors.len(),
        0 <= k.2 < monitors.len(),
        0 <= k.3 < monitors.len(),
        super::desktop_of(monitors) matches Some(b) && b.x == monitors[k.0].full_geometry.x && b.x + b.width
            == monitors[k.1].full_geometry.x + monitors[k.1].full_geometry.width && b.y
            == monitors[k.2].full_geometry.y && b.y + b.height == monitors[k.3].full_geometry.y
            + monitors[k.3].full_geometry.height,
    decreases monitors.len(),
{
    reveal(monitors_ok);
    let n = monitors.len() - 1;
    let front = monitors.drop_last();
    assert(monitors[n].fits());
    if front.len() > 0 {
        assert forall|i: int| 0 <= i < front.len() implies (#[trigger] front[i]).fits() by {
            assert(front[i] == monitors[i]);
        }
        let k = lemma_desktop_edges(front);
        super::lemma_desktop(front);
        let a = super::desktop_of(front)->Some_0;
        let b = monitors[n].full_geometry;
        (
            if a.x <= b.x { k.0 } else { n },
            if a.right_edge() >= b.right_edge() { k.1 } else { n },
            if a.y <= b.y { k.2 } else { n },
            if a.bottom_edge() >= b.bottom_edge() { k.3 } else { n },
        )
    } else {
        assert(super::desktop_of(front) is None);
        (n, n, n, n)
    }
}

/// A window that is moved belongs to the first monitor whose usable area it
/// overlaps, and to the one before where it overlaps none. `k` is any monitor.
pub proof fn lemma_belongs_where_shown(w: Window, g: Rect, monitors: Seq<Monitor>, k: int)
    requires
        0 <= k < monitors.len(),
    ensures
        ({
            let m = monitors[k].geometry;
            let here = m.x + m.width > g.x && g.x + g.width > m.x && m.y + m.height > g.y && g.y + g.height > m.y;
            let first = forall|j: int|
                0 <= j < k ==> {
                    let n = (#[trigger] monitors[j]).geometry;
                    !(n.x + n.width > g.x && g.x + g.width > n.x && n.y + n.height > g.y && g.y + g.height > n.y)
                };
            let r = placed_at(w, g, monitors);
            &&& r == (Window { geometry: g, monitor: r.monitor, ..w })
            &&& here && first ==> r.monitor == monitors[k].id
            &&& !here && first && k == monitors.len() - 1 ==> r.monitor == w.monitor
        }),
{
    lemma_first_found(monitors, g, k);
}

/// The first monitor that shows a rectangle, by its number.
proof fn lemma_first_found(monitors: Seq<Monitor>, g: Rect, k: int)
    requires
        0 <= k < monitors.len(),
    ensures
        (forall|j: int| 0 <= j < k ==> !(#[trigger] monitors[j]).geometry.meets(g)) ==> {
            &&& monitors[k].geometry.meets(g) ==> first_monitor(monitors, showing(g)) == Some(monitors[k])
            &&& !monitors[k].geometry.meets(g) && k == monitors.len() - 1 ==> first_monitor(monitors, showing(g)) is None
        },
    decreases monitors.len(),
{
    if forall|j: int| 0 <= j < k ==> !(#[trigger] monitors[j]).geometry.meets(g) {
        if k > 0 {
            let rest = monitors.skip(1);
            assert(!monitors[0].geometry.meets(g));
            assert(rest[k - 1] == monitors[k]);
            assert forall|j: int| 0 <= j < k - 1 implies !(#[trigger] rest[j]).geometry.meets(g) by {
                assert(rest[j] == monitors[j + 1]);
            }
            lemma_first_found(rest, g, k - 1);
        } else if monitors.len() == 1 {
            assert(monitors.skip(1).len() == 0);
            assert(first_monitor(monitors.skip(1), showing(g)) is None);
        }
    }
}

/// A window that is let go at edges of its monitor lies at those edges: at the
/// left or right edge it takes that half, with the top or bottom edge that
/// quarter, at the top alone the whole area. Let go anywhere else it stays where
/// it is. Its app's next window will open with the geometry that it has then.
pub proof fn lemma_released_at_edges(s: State, m: Monitor)
    requires
        s.drag matches Some(d) && s.has(d.window),
        s.monitor_for(s.drag_ended().windows[s.drag->Some_0.window].monitor) == Some(m),
        m.fits(),
    ensures
        ({
            let id = s.drag->Some_0.window;
            let g = s.windows[id].geometry;
            let area = m.geometry;
            let near = s.settings.placement.snap_threshold;
            let left = -near <= g.x - area.x <= near;
            let top = -near <= g.y - area.y <= near;
            let right = -near <= (g.x + g.width) - (area.x + area.width) <= near;
            let bottom = -near <= (g.y + g.height) - (area.y + area.height) <= near;
            let snaps = (left || right || top) && !(left && right) && !(top && bottom);
            let t = s.drag_ended();
            let z = t.windows[id].geometry;
            &&& t.drag is None
            &&& !snaps ==> z == g
            &&& snaps && left ==> z.x == area.x && z.width == area.width / 2
            &&& snaps && right ==> z.x == area.x + area.width / 2 && z.width == area.width / 2
            &&& snaps && !left && !right ==> z == area
            &&& snaps && (left || right) && top ==> z.y == area.y && z.height == area.height / 2
            &&& snaps && bottom ==> z.y == area.y + area.height / 2 && z.height == area.height / 2
            &&& snaps && !top && !bottom ==> z.y == area.y && z.height == area.height
            &&& s.windows[id].app_id@.len() > 0 ==> t.remembered == s.remembered.insert(
                s.windows[id].app_id@,
                (z.x, z.y, z.width, z.height),
            )
            &&& s.windows[id].app_id@.len() == 0 ==> t.remembered == s.remembered
        }),
{
    reveal(State::zone_at);
    let id = s.drag->Some_0.window;
    let w = s.windows[id];
    let ended = State { drag: None, ..s };
    ended.lemma_let_go(w);
    lemma_snaps_to_near_edges(w.geometry, m.geometry, s.settings.placement.snap_threshold as int);
}

/// A window that is put in a zone of its monitor lies where the zone's name says,
/// and is neither maximized nor fullscreen.
pub proof fn lemma_put_in_zone(s: State, id: u64, zone: SnapZoneKind, m: Monitor)
    requires
        s.has(id),
        s.monitor_for(s.windows[id].monitor) == Some(m),
        m.fits(),
    ensures
        ({
            let w = s.snapped(id, zone).windows[id];
            let z = w.geometry;
            let area = m.geometry;
            let left = zone is LeftHalf || zone is TopLeftQuarter || zone is BottomLeftQuarter;
            let half = zone is LeftHalf || zone is RightHalf;
            let low = zone is BottomLeftQuarter || zone is BottomRightQuarter;
            &&& !w.maximized && !w.fullscreen
            &&& area.width - 1 <= 2 * z.width <= area.width
            &&& left ==> z.x == area.x
            &&& !left ==> z.x == area.x + z.width
            &&& half ==> z.y == area.y && z.height == area.height
            &&& !half ==> area.height - 1 <= 2 * z.height <= area.height
            &&& !half && !low ==> z.y == area.y
            &&& low ==> z.y == area.y + z.height
            &&& w == (Window {
                geometry: z,
                maximized: false,
                fullscreen: false,
                restore_geometry: w.restore_geometry,
                anim_from: w.anim_from,
                ..s.windows[id]
            })
        }),
{
    lemma_zones_lie_where_named(zone, m.geometry);
}

// ---- Resizing --------------------------------------------------------------------

/// A resize starts from where the window and the pointer are, with the window
/// focused and where it was.
pub proof fn lemma_resize_starts(s: State, id: u64, edge: ResizeEdge, x: i32, y: i32)
    requires
        s.has(id),
    ensures
        ({
            let t = s.resize_started(id, edge, x, y);
            let g = s.windows[id].geometry;
            &&& t.resize matches Some(r) && r.window == id && r.edge == edge && r.start_x == x && r.start_y == y
                && r.orig == g && r.orig_master_ratio == s.settings.tiling.master_ratio
            &&& t.windows[id].geometry == g
        }),
{
}

/// The edge that is dragged moves with the pointer, and the opposite one stays,
/// as long as the window keeps its minimum size.
pub proof fn lemma_resize_follows_pointer(s: State, x: i32, y: i32)
    requires
        s.resize matches Some(r) && s.has(r.window) && r.ratio_drag_ids is None && r.orig.fits(),
        s.windows[s.resize->Some_0.window].aspect_ratio is None,
    ensures
        ({
            let r = s.resize->Some_0;
            let g = r.orig;
            let min = s.windows[r.window].min_size;
            let dx = x - r.start_x;
            let dy = y - r.start_y;
            let z = s.resize_moved(x, y).windows[r.window].geometry;
            let left = r.edge is Left || r.edge is TopLeft || r.edge is BottomLeft;
            let right = r.edge is Right || r.edge is TopRight || r.edge is BottomRight;
            let top = r.edge is Top || r.edge is TopLeft || r.edge is TopRight;
            let bottom = r.edge is Bottom || r.edge is BottomLeft || r.edge is BottomRight;
            &&& left && min.0 <= g.width - dx <= u32::MAX && g.x + dx >= i32::MIN ==> z.x == g.x + dx && z.x + z.width
                == g.x + g.width
            &&& left && g.width - dx < min.0 && g.x + g.width - min.0 >= i32::MIN ==> z.width == min.0 && z.x + z.width
                == g.x + g.width
            &&& right ==> z.x == g.x
            &&& right && min.0 <= g.width + dx <= u32::MAX ==> z.width == g.width + dx
            &&& right && g.width + dx < min.0 ==> z.width == min.0
            &&& !left && !right ==> z.x == g.x && z.width == g.width
            &&& top && min.1 <= g.height - dy <= u32::MAX && g.y + dy >= i32::MIN ==> z.y == g.y + dy && z.y + z.height
                == g.y + g.height
            &&& top && g.height - dy < min.1 && g.y + g.height - min.1 >= i32::MIN ==> z.height == min.1 && z.y
                + z.height == g.y + g.height
            &&& bottom ==> z.y == g.y
            &&& bottom && min.1 <= g.height + dy <= u32::MAX ==> z.height == g.height + dy
            &&& bottom && g.height + dy < min.1 ==> z.height == min.1
            &&& !top && !bottom ==> z.y == g.y && z.height == g.height
        }),
{
}

/// Where a window keeps a ratio of its sides, the side that the dragged edge
/// does not set follows from the other, down to its minimum.
pub proof fn lemma_resize_keeps_ratio(s: State, x: i32, y: i32, across: u32, down: u32)
    requires
        s.resize matches Some(r) && s.has(r.window),
        s.windows[s.resize->Some_0.window].aspect_ratio == Some((across, down)),
        across > 0,
        down > 0,
    ensures
        ({
            let r = s.resize->Some_0;
            let t = s.resize_moved(x, y);
            let min = s.windows[r.window].min_size;
            let z = t.windows[r.window].geometry;
            let w = z.width as int;
            let h = z.height as int;
            let by_height = r.edge is Top || r.edge is Bottom;
            &&& r.ratio_drag_ids is None && by_height && h * across < 0x1_0000_0000 * down ==> w >= min.0 && (w == min.0 || w
                * down <= h * across < (w + 1) * down)
            &&& r.ratio_drag_ids is None && !by_height && w * down < 0x1_0000_0000 * across ==> h >= min.1 && (h == min.1
                || h * across <= w * down < (h + 1) * across)
        }),
{
    let r = s.resize->Some_0;
    let win = s.windows[r.window];
    let moved = r.edge.dragged(r.orig, x - r.start_x, y - r.start_y, win.min_size.0, win.min_size.1);
    lemma_ratio_kept(r.edge, moved, (across, down), win.min_size.0, win.min_size.1);
}

/// Dragging the boundary between columns moves no window by itself, nor does the
/// pointer where nothing is resized.
pub proof fn lemma_resize_waits(s: State, x: i32, y: i32)
    ensures
        s.resize is None ==> s.resize_moved(x, y) == s,
        (s.resize matches Some(r) && r.ratio_drag_ids is Some) ==> s.resize_moved(x, y) == s,
        (s.resize matches Some(r) && !s.has(r.window)) ==> s.resize_moved(x, y) == s,
        s.drag is None ==> s.dragged(x, y) == s && s.drag_ended() == s,
{
}

/// The flyout shows on a monitor that the pointer is above or near the top of,
/// between its sides, and on none only where there is no such monitor.
pub proof fn lemma_flyout_at_top(monitors: Seq<Monitor>, x: i32, y: i32, k: int)
    requires
        0 <= k < monitors.len(),
    ensures
        ({
            let near = |g: Rect|
                g.x <= x < g.x + g.width && y < g.y + g.height && y <= g.y + SNAP_FLYOUT_EDGE;
            &&& first_monitor(monitors, top_edge_near(x, y)) matches Some(m) ==> near(m.full_geometry)
            &&& first_monitor(monitors, top_edge_near(x, y)) is None ==> !near(monitors[k].full_geometry)
        }),
{
    lemma_first_monitor(monitors, top_edge_near(x, y));
}

/// Letting go of an edge leaves the window as it is, and notes its geometry for
/// its app's next window.
pub proof fn lemma_resize_ends(s: State)
    requires
        s.resize matches Some(r) && s.has(r.window),
    ensures
        ({
            let w = s.windows[s.resize->Some_0.window];
            let t = s.resize_ended();
            &&& t.resize is None && t.windows == s.windows && t.settings == s.settings
            &&& w.app_id@.len() > 0 ==> t.remembered == s.remembered.insert(
                w.app_id@,
                (w.geometry.x, w.geometry.y, w.geometry.width, w.geometry.height),
            )
            &&& w.app_id@.len() == 0 ==> t.remembered == s.remembered
        }),
{
}

/// Dragging the right edge of a window in the master column, or the left edge
/// of one in the stack, moves the boundary between the two. No other edge does,
/// and no window does that floats, is fullscreen or is on a workspace that is
/// not tiled. Where all windows stand in the master column there is no boundary.
pub proof fn lemma_boundary_edges(s: State, id: u64, edge: ResizeEdge)
    ensures
        ({
            let w = s.windows[id];
            let ids = s.order.filter(tiled_on(s.windows, w.workspace, w.monitor));
            let count = if s.settings.tiling.master_count == 0 { 1 } else { s.settings.tiling.master_count as int };
            let at = position_in(ids, id);
            let left = edge is Left || edge is TopLeft || edge is BottomLeft;
            let right = edge is Right || edge is TopRight || edge is BottomRight;
            match s.ratio_drag(id, edge) {
                Some(all) => {
                    &&& all == ids && ids.len() > count && at >= 0
                    &&& !w.floating && !w.fullscreen
                    &&& at < count ==> right
                    &&& at >= count ==> left
                },
                None => w.floating || w.fullscreen || at < 0 || ids.len() <= count || (at < count && !right) || (at
                    >= count && !left) || !s.workspace_exists(w.workspace) || s.workspace_with(w.workspace).layout
                    != "tiling"@,
            }
        }),
{
}

/// The boundary goes to the ratio that is asked for, but no further than a tenth
/// of the width from either edge.
pub proof fn lemma_boundary_ratio(ratio: Float32)
    ensures
        0x3dcc_cccd <= ratio.bits <= 0x3f66_6666 ==> within_ratios(ratio) == ratio,
        ratio.bits < 0x3dcc_cccd ==> within_ratios(ratio).bits == 0x3dcc_cccd,
        0x8000_0000 <= ratio.bits <= 0xff80_0000 ==> within_ratios(ratio).bits == 0x3dcc_cccd,
        0x3f66_6666 < ratio.bits <= 0x7f80_0000 ==> within_ratios(ratio).bits == 0x3f66_6666,
{
}

/// With the boundary at another ratio, each of the windows that share it has its
/// place in the columns with that ratio, and no other window changes.
pub proof fn lemma_boundary_moves_windows(s: State, ratio: Float32, ids: Seq<u64>, m: Monitor, i: int, other: u64)
    requires
        s.boundary_drag() == Some((ids, m)),
        ids.no_duplicates(),
        0 <= i < ids.len(),
        s.has(ids[i]),
        s.has(other),
        !ids.contains(other),
    ensures
        ({
            let t = s.ratio_set(ratio);
            let tiling = TilingConfig { master_ratio: within_ratios(ratio), ..s.settings.tiling };
            &&& t.settings.tiling == tiling
            &&& t.windows[ids[i]] == (Window {
                geometry: tile(m.geometry.shrunk(tiling.gap_outer), ids.len() as int, i, tiling),
                ..s.windows[ids[i]]
            })
            &&& t.windows[other] == s.windows[other]
        }),
{
    let tiling = TilingConfig { master_ratio: within_ratios(ratio), ..s.settings.tiling };
    let area = m.geometry.shrunk(tiling.gap_outer);
    lemma_tiles(ids, area, tiling, ids.len() as int);
    lemma_own_layouts_place_only(ids, m, tiling);
    let slots = MasterStackLayout.slots(ids, m, tiling);
    assert(slots.dom().contains(ids[i]));
    assert(slots[ids[i]] == tile(area, ids.len() as int, i, tiling));
}

/// What the pointer asks of the boundary: as far as it has gone, in the width of
/// the monitor's area without the outer gaps, from the ratio at the start.
pub proof fn lemma_boundary_asked(s: State, x: i32, m: Monitor, ids: Seq<u64>)
    requires
        s.boundary_drag() == Some((ids, m)),
    ensures
        s.ratio_asked(x) matches Some(d) && {
            let gap = s.settings.tiling.gap_outer;
            &&& d.dx == x - s.resize->Some_0.start_x
            &&& m.geometry.width > 2 * gap ==> d.area_width == m.geometry.width - 2 * gap
            &&& m.geometry.width <= 2 * gap ==> d.area_width == 1
            &&& d.from == s.resize->Some_0.orig_master_ratio
        },
{
}

// ---- Single windows ----------------------------------------------------------------

/// Moving a window sets its corner, resizing it its size, no less than its
/// minimum. Floating is toggled, restoring undoes minimizing, and a window in
/// the scratchpad floats.
pub proof fn lemma_simple_changes(s: State, id: u64, x: i32, y: i32, width: u32, height: u32)
    requires
        s.has(id),
    ensures
        ({
            let w = s.windows[id];
            let g = w.geometry;
            let z = s.resized(id, width, height).windows[id].geometry;
            &&& s.moved(id, x, y) == s.with_window(
                id,
                Window { geometry: Rect { x, y, width: g.width, height: g.height }, ..w },
            )
            &&& s.resized(id, width, height) == s.with_window(id, Window { geometry: z, ..w })
            &&& z.x == g.x && z.y == g.y
            &&& z.width == (if width >= w.min_size.0 { width } else { w.min_size.0 })
            &&& z.height == (if height >= w.min_size.1 { height } else { w.min_size.1 })
            &&& s.float_toggled(id) == s.with_window(id, Window { floating: !w.floating, ..w })
            &&& s.restored(id) == s.with_window(id, Window { minimized: false, ..w })
            &&& s.pooled(id) == s.with_window(id, Window { scratchpad: true, floating: true, ..w })
            &&& s.unpooled(id) == s.with_window(id, Window { scratchpad: false, ..w })
            &&& s.focused != Some(id) ==> s.minimized(id) == s.with_window(id, Window { minimized: true, ..w })
        }),
{
}

/// Nothing of that happens to a window that does not exist.
pub proof fn lemma_no_change_of_none(s: State, id: u64, x: i32, y: i32, width: u32, height: u32)
    requires
        !s.has(id),
    ensures
        s.moved(id, x, y) == s,
        s.resized(id, width, height) == s,
        s.float_toggled(id) == s,
        s.restored(id) == s,
        s.pooled(id) == s,
        s.unpooled(id) == s,
        s.maximize_toggled(id) == s,
        s.fullscreen_toggled(id) == s,
        s.drag_started(id, x, y) == s,
{
}

/// The corner that a resize takes hold of is the one on the pointer's side of
/// the middle, across and down.
pub proof fn lemma_corner_on_pointer_side(r: Rect, x: i32, y: i32)
    ensures
        ({
            let c = corner_of(r, x, y);
            &&& x < r.x + r.width / 2 ==> c is TopLeft || c is BottomLeft
            &&& x >= r.x + r.width / 2 ==> c is TopRight || c is BottomRight
            &&& y < r.y + r.height / 2 ==> c is TopLeft || c is TopRight
            &&& y >= r.y + r.height / 2 ==> c is BottomLeft || c is BottomRight
        }),
{
}

// ---- Arranging -----------------------------------------------------------------

/// The monitors of windows are listed in ascending order.
proof fn lemma_filed_all(s: State, ids: Seq<u64>, id: u64)
    ensures
        ascending(filed_all(s.windows, ids)),
        ids.contains(id) ==> filed_all(s.windows, ids).contains(s.windows[id].monitor),
    decreases ids.len(),
{
    if ids.len() > 0 {
        let front = ids.drop_last();
        lemma_filed_all(s, front, id);
        lemma_filed(filed_all(s.windows, front), s.windows[ids.last()].monitor);
        if ids.contains(id) {
            let k = choose|k: int| 0 <= k < ids.len() && ids[k] == id;
            if k < front.len() {
                assert(front[k] == id);
            }
        }
    }
}

/// A window that one table places, and no other, has that place.
proof fn lemma_settled_once(windows: Map<u64, Window>, tables: Seq<Map<u64, Rect>>, id: u64, k: int)
    requires
        windows.contains_key(id),
        0 <= k < tables.len(),
        tables[k].contains_key(id),
        forall|j: int| 0 <= j < tables.len() && j != k ==> !(#[trigger] tables[j]).contains_key(id),
    ensures
        settled_all(windows, tables).contains_key(id),
        settled_all(windows, tables)[id] == (Window { geometry: tables[k][id], ..windows[id] }),
    decreases tables.len(),
{
    let n = tables.len() - 1;
    let front = tables.drop_last();
    assert forall|j: int| 0 <= j < front.len() && j != k implies !(#[trigger] front[j]).contains_key(id) by {
        assert(front[j] == tables[j]);
    }
    if k < n {
        lemma_settled_once(windows, front, id, k);
        assert(!tables[n].contains_key(id));
    } else {
        lemma_settled_none(windows, front, id);
    }
}

proof fn lemma_settled_none(windows: Map<u64, Window>, tables: Seq<Map<u64, Rect>>, id: u64)
    requires
        windows.contains_key(id),
        forall|j: int| 0 <= j < tables.len() ==> !(#[trigger] tables[j]).contains_key(id),
    ensures
        settled_all(windows, tables).contains_key(id),
        settled_all(windows, tables)[id] == windows[id],
    decreases tables.len(),
{
    if tables.len() > 0 {
        let front = tables.drop_last();
        assert forall|j: int| 0 <= j < front.len() implies !(#[trigger] front[j]).contains_key(id) by {
            assert(front[j] == tables[j]);
        }
        lemma_settled_none(windows, front, id);
        assert(!tables[tables.len() - 1].contains_key(id));
    }
}

/// The windows that are tiled together are those of a workspace on one monitor
/// that are not minimized, do not float and are not fullscreen.
pub proof fn lemma_tiled_together(s: State, workspace: usize, monitor: u32, id: u64)
    requires
        s.wf(),
    ensures
        s.order.filter(tiled_on(s.windows, workspace, monitor)).contains(id) <==> {
            let w = s.windows[id];
            s.windows.contains_key(id) && w.workspace == workspace && w.monitor == monitor && !w.minimized
                && !w.floating && !w.fullscreen
        },
{
    reveal(windows_ok);
    lemma_filter(s.order, tiled_on(s.windows, workspace, monitor));
}

/// On a workspace that is tiled in columns, each window that is tiled gets its
/// place in the columns of its monitor: the `i`th in the stacking order of those
/// that are tiled there with it the `i`th place.
pub proof fn lemma_arranged_in_columns(s: State, workspace: usize, id: u64, i: int, m: Monitor)
    requires
        s.wf(),
        s.order.no_duplicates(),
        s.arrangeable(workspace),
        forall|ids: Seq<u64>, n: Monitor, c: TilingConfig|
            #[trigger] s.layouts[s.workspace_with(workspace).layout].layout.slots(ids, n, c)
                == MasterStackLayout.slots(ids, n, c),
        s.has(id),
        s.windows[id].workspace == workspace,
        !s.windows[id].minimized && !s.windows[id].floating && !s.windows[id].fullscreen,
        s.monitor_for(s.windows[id].monitor) == Some(m),
        ({
            let ids = s.order.filter(tiled_on(s.windows, workspace, s.windows[id].monitor));
            0 <= i < ids.len() && ids[i] == id
        }),
    ensures
        ({
            let ids = s.order.filter(tiled_on(s.windows, workspace, s.windows[id].monitor));
            let cfg = s.settings.tiling;
            s.arranged(workspace).windows[id] == (Window {
                geometry: tile(m.geometry.shrunk(cfg.gap_outer), ids.len() as int, i, cfg),
                ..s.windows[id]
            })
        }),
{
    reveal(windows_ok);
    let mon = s.windows[id].monitor;
    let layout = s.workspace_with(workspace).layout;
    let cfg = s.settings.tiling;
    let all = s.order.filter(tiled_in(s.windows, workspace));
    lemma_filter(s.order, tiled_in(s.windows, workspace));
    assert(s.order.contains(id));
    assert(all.contains(id));
    lemma_filed_all(s, all, id);
    let used = s.monitors_used(workspace);
    let k = choose|k: int| 0 <= k < used.len() && used[k] == mon;
    assert(used.contains(mon));
    let tables = s.placements(workspace, layout);
    let ids = s.order.filter(tiled_on(s.windows, workspace, mon));
    lemma_filter(s.order, tiled_on(s.windows, workspace, mon));
    let area = m.geometry.shrunk(cfg.gap_outer);
    lemma_tiles(ids, area, cfg, ids.len() as int);
    assert(tables[k] == s.slots_on(workspace, layout, mon));
    assert(tables[k] == MasterStackLayout.slots(ids, m, cfg));
    assert(tables[k].dom().contains(ids[i]));
    assert(tables[k][id] == tile(area, ids.len() as int, i, cfg));
    assert forall|j: int| 0 <= j < tables.len() && j != k implies !(#[trigger] tables[j]).contains_key(id) by {
        let other = used[j];
        assert(other != mon);
        let theirs = s.order.filter(tiled_on(s.windows, workspace, other));
        lemma_filter(s.order, tiled_on(s.windows, workspace, other));
        assert(tables[j] == s.slots_on(workspace, layout, other));
        if let Some(n) = s.monitor_for(other) {
            lemma_own_layouts_place_only(theirs, n, cfg);
            assert(tables[j] == MasterStackLayout.slots(theirs, n, cfg));
        }
    }
    lemma_settled_once(s.windows, tables, id, k);
}

// ---- Monitors come and go ------------------------------------------------------------

/// After a change of monitors, a maximized window whose monitor is still there
/// has the geometry that this gives to maximized windows now, and a fullscreen
/// one covers all of it.
pub proof fn lemma_covering_follows_monitor(s: State, monitors: Seq<Monitor>, id: u64)
    requires
        s.has(id),
        monitors.len() > 0,
    ensures
        ({
            let w = s.with_monitors(monitors).windows[id];
            let home = first_monitor(monitors, with_id(w.monitor));
            &&& s.windows[id].maximized ==> (home matches Some(m) ==> w.geometry == m.maximize_geometry)
            &&& !s.windows[id].maximized && s.windows[id].fullscreen ==> (home matches Some(m) ==> w.geometry
                == m.full_geometry)
            &&& w == (Window { geometry: w.geometry, monitor: w.monitor, ..s.windows[id] })
        }),
{
    let primary = super::primary_of(monitors)->Some_0;
    lemma_first_monitor(monitors, super::marked_primary());
    let moved = State { monitors, windows: super::each(s.windows, super::rehomed(monitors, primary)), ..s };
    lemma_relaid_keeps_windows(moved);
    assert(s.with_monitors(monitors).windows[id] == (super::rehomed(monitors, primary))(s.windows[id]));
    lemma_covering_window(s.windows[id], monitors, primary);
}

/// The same of one window.
proof fn lemma_covering_window(w: Window, monitors: Seq<Monitor>, primary: Monitor)
    ensures
        ({
            let h = super::homed(w, monitors, primary);
            let r = super::resynced(h, monitors);
            let home = first_monitor(monitors, with_id(r.monitor));
            &&& w.maximized ==> (home matches Some(m) ==> r.geometry == m.maximize_geometry)
            &&& !w.maximized && w.fullscreen ==> (home matches Some(m) ==> r.geometry == m.full_geometry)
            &&& r == (Window { geometry: r.geometry, monitor: r.monitor, ..w })
        }),
{
    let h = super::homed(w, monitors, primary);
    assert(h == (Window { geometry: h.geometry, monitor: h.monitor, ..w }));
    let r = super::resynced(h, monitors);
    assert(r == (Window { geometry: r.geometry, ..h }));
}

/// Setting the layouts of workspaces changes no window.
proof fn lemma_relaid_keeps_windows(s: State)
    ensures
        s.monitors_relaid().windows == s.windows,
{
    if let Some(m) = super::primary_of(s.monitors) {
        let ws = s.shown_on(m.id);
        lemma_others_keep_windows(s.primary_relaid(ws), s.monitors, m.id, ws);
    }
}

proof fn lemma_others_keep_windows(s: State, monitors: Seq<Monitor>, primary: u32, workspace: usize)
    ensures
        s.others_relaid(monitors, primary, workspace).windows == s.windows,
    decreases monitors.len(),
{
    if monitors.len() > 0 {
        lemma_others_keep_windows(s, monitors.drop_last(), primary, workspace);
    }
}

} // verus!
