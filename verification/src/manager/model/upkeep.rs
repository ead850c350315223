//! What labelling workspaces, spreading layouts over the monitors and moving
//! windows with an animation leave behind, in terms of single fields.
use super::super::store::Settings;
use super::super::{Direction, State};
use super::{distance, frame_of, lies, nearest, primary_of, renamed};
use crate::geometry::Rect;
use crate::monitor::Monitor;
use crate::placement::SnapZoneKind;
use crate::window::Window;
use vstd::prelude::*;

verus! {

// ---- Neighbours ------------------------------------------------------------------

/// Where the nearest window stands among the others: those before it that are
/// on the side are all farther away.
proof fn lemma_nearest_place(windows: Map<u64, Window>, ids: Seq<u64>, from: u64, dir: Direction) -> (k: int)
    requires
        nearest(windows, ids, from, dir) is Some,
    ensures
        0 <= k < ids.len(),
        nearest(windows, ids, from, dir) == Some(ids[k]),
        forall|j: int|
            0 <= j < k && #[trigger] ids[j] != from && lies(dir, windows[from].geometry, windows[ids[j]].geometry)
                ==> distance(dir, windows[from].geometry, windows[ids[j]].geometry) > distance(
                dir,
                windows[from].geometry,
                windows[ids[k]].geometry,
            ),
    decreases ids.len(),
{
    let front = ids.drop_last();
    super::lemma_nearest(windows, front, from, dir);
    assert forall|j: int| 0 <= j < front.len() implies front[j] == #[trigger] ids[j] by {}
    if nearest(windows, front, from, dir) is Some && nearest(windows, ids, from, dir) == nearest(
        windows,
        front,
        from,
        dir,
    ) {
        lemma_nearest_place(windows, front, from, dir)
    } else {
        ids.len() - 1
    }
}

/// Of windows that are as near as each other, the one that was added first is
/// the neighbour: whatever comes before it in the ring on that side is farther
/// away, where a distance across counts twice.
pub proof fn lemma_first_of_the_near(s: State, dir: Direction, j: int) -> (k: int)
    requires
        s.focused is Some,
        s.neighbour(dir) is Some,
    ensures
        0 <= k < s.ring().len(),
        s.neighbour(dir) == Some(s.ring()[k]),
        ({
            let here = s.windows[s.focused->Some_0].geometry;
            let there = s.windows[s.ring()[k]].geometry;
            let other = s.windows[s.ring()[j]].geometry;
            let x = here.x + here.width / 2;
            let y = here.y + here.height / 2;
            let dx = there.x + there.width / 2 - x;
            let dy = there.y + there.height / 2 - y;
            let ox = other.x + other.width / 2 - x;
            let oy = other.y + other.height / 2 - y;
            let before = 0 <= j < k && s.ring()[j] != s.focused->Some_0;
            &&& before && dir is Left && ox < 0 ==> ox * ox + oy * oy * 4 > dx * dx + dy * dy * 4
            &&& before && dir is Right && ox > 0 ==> ox * ox + oy * oy * 4 > dx * dx + dy * dy * 4
            &&& before && dir is Up && oy < 0 ==> oy * oy + ox * ox * 4 > dy * dy + dx * dx * 4
            &&& before && dir is Down && oy > 0 ==> oy * oy + ox * ox * 4 > dy * dy + dx * dx * 4
        }),
{
    lemma_nearest_place(s.windows, s.ring(), s.focused->Some_0, dir)
}

// ---- Labels ----------------------------------------------------------------------

/// Naming a workspace anew changes the name of that one alone, and giving it
/// another layout its layout alone.
pub proof fn lemma_relabelled(s: State, id: usize, label: Seq<char>, i: int)
    requires
        0 <= i < s.workspaces.len(),
    ensures
        ({
            let w = s.workspaces[i];
            let named = s.workspaces.map_values(renamed(id, label));
            let t = s.with_layout(id, label);
            &&& named.len() == s.workspaces.len() && t.workspaces.len() == s.workspaces.len()
            &&& named[i].id == w.id && t.workspaces[i].id == w.id
            &&& named[i].layout == w.layout && t.workspaces[i].name == w.name
            &&& w.id == id ==> named[i].name == label && t.workspaces[i].layout == label
            &&& w.id != id ==> named[i].name == w.name && t.workspaces[i].layout == w.layout
            &&& t.windows == s.windows && t.current == s.current && t.previous == s.previous && t.focused == s.focused
        }),
{
}

// ---- Layouts on monitors ------------------------------------------------------------

/// The workspaces after those of the other monitors have their layout.
proof fn lemma_others_relaid(s: State, monitors: Seq<Monitor>, primary: u32, workspace: usize, i: int)
    requires
        0 <= i < s.workspaces.len(),
    ensures
        ({
            let t = s.others_relaid(monitors, primary, workspace);
            let w = s.workspaces[i];
            let elsewhere = exists|k: int|
                0 <= k < monitors.len() && (#[trigger] monitors[k]).id != primary && s.shown_on(monitors[k].id) == w.id;
            &&& t == (State { workspaces: t.workspaces, ..s })
            &&& t.workspaces.len() == s.workspaces.len()
            &&& t.workspaces[i].id == w.id && t.workspaces[i].name == w.name
            &&& t.workspaces[i].layout == if elsewhere && w.id != workspace {
                s.settings.secondary_layout
            } else {
                w.layout
            }
        }),
    decreases monitors.len(),
{
    if monitors.len() > 0 {
        let front = monitors.drop_last();
        lemma_others_relaid(s, front, primary, workspace, i);
        let w = s.workspaces[i];
        assert forall|k: int| 0 <= k < front.len() implies front[k] == #[trigger] monitors[k] by {}
        let m = monitors.last();
        assert(m == monitors[monitors.len() - 1]);
        if m.id != primary && s.shown_on(m.id) == w.id {
            assert(exists|k: int|
                0 <= k < monitors.len() && (#[trigger] monitors[k]).id != primary && s.shown_on(monitors[k].id) == w.id);
        }
        if exists|k: int|
            0 <= k < front.len() && (#[trigger] front[k]).id != primary && s.shown_on(front[k].id) == w.id {
            let k = choose|k: int|
                0 <= k < front.len() && (#[trigger] front[k]).id != primary && s.shown_on(front[k].id) == w.id;
            assert(monitors[k] == front[k]);
        }
    }
}

/// Where monitors show workspaces of their own, the workspace of the primary
/// monitor takes the layout for that one and those of the others take the
/// layout for others, where such a layout is known. A workspace that shows on
/// the primary monitor too is not one of the others. No other workspace
/// changes, and nothing else does.
pub proof fn lemma_layouts_spread(s: State, m: Monitor, i: int)
    requires
        primary_of(s.monitors) == Some(m),
        0 <= i < s.workspaces.len(),
    ensures
        ({
            let t = s.monitors_relaid();
            let w = s.workspaces[i];
            let first = s.settings.primary_layout;
            let others = s.settings.secondary_layout;
            let apart = s.settings.per_monitor_workspaces;
            let own = |monitor: u32|
                if s.monitor_workspaces.contains_key(monitor) {
                    s.monitor_workspaces[monitor]
                } else {
                    s.current
                };
            let elsewhere = exists|k: int|
                0 <= k < s.monitors.len() && (#[trigger] s.monitors[k]).id != m.id && own(s.monitors[k].id) == w.id;
            let known_first = first.len() > 0 && s.layouts.contains_key(first);
            let known_others = others.len() > 0 && s.layouts.contains_key(others);
            &&& t == (State { workspaces: t.workspaces, ..s })
            &&& !apart ==> t == s
            &&& t.workspaces.len() == s.workspaces.len()
            &&& t.workspaces[i].id == w.id && t.workspaces[i].name == w.name
            &&& apart && w.id == own(m.id) ==> t.workspaces[i].layout == if known_first {
                first
            } else {
                w.layout
            }
            &&& apart && w.id != own(m.id) ==> t.workspaces[i].layout == if elsewhere && known_others {
                others
            } else {
                w.layout
            }
        }),
{
    let workspace = s.shown_on(m.id);
    let p = s.primary_relaid(workspace);
    assert(p.workspaces.len() == s.workspaces.len());
    lemma_others_relaid(p, s.monitors, m.id, workspace, i);
    assert forall|id: u32| #[trigger] p.shown_on(id) == s.shown_on(id) by {}
    let w = s.workspaces[i];
    let own = |monitor: u32|
        if s.monitor_workspaces.contains_key(monitor) {
            s.monitor_workspaces[monitor]
        } else {
            s.current
        };
    if s.settings.per_monitor_workspaces {
        assert forall|id: u32| own(id) == #[trigger] p.shown_on(id) by {}
        if exists|k: int|
            0 <= k < s.monitors.len() && (#[trigger] s.monitors[k]).id != m.id && own(s.monitors[k].id) == w.id {
            let k = choose|k: int|
                0 <= k < s.monitors.len() && (#[trigger] s.monitors[k]).id != m.id && own(s.monitors[k].id) == w.id;
            assert(p.shown_on(s.monitors[k].id) == w.id);
        }
        if exists|k: int|
            0 <= k < s.monitors.len() && (#[trigger] s.monitors[k]).id != m.id && p.shown_on(s.monitors[k].id) == w.id {
            let k = choose|k: int|
                0 <= k < s.monitors.len() && (#[trigger] s.monitors[k]).id != m.id && p.shown_on(s.monitors[k].id)
                    == w.id;
            assert(own(s.monitors[k].id) == w.id);
        }
    }
}

/// A workspace is visible if some monitor shows it, and where all monitors show
/// the same one, if it is that one.
pub proof fn lemma_visible_where_shown(s: State, id: usize, k: int)
    ensures
        !s.settings.per_monitor_workspaces ==> s.visible_somewhere(id) == (id == s.current),
        s.settings.per_monitor_workspaces && 0 <= k < s.monitors.len() && (if s.monitor_workspaces.contains_key(
            s.monitors[k].id,
        ) {
            s.monitor_workspaces[s.monitors[k].id] == id
        } else {
            s.current == id
        }) ==> s.visible_somewhere(id),
        s.settings.per_monitor_workspaces && s.visible_somewhere(id) ==> exists|j: int|
            0 <= j < s.monitors.len() && (if s.monitor_workspaces.contains_key((#[trigger] s.monitors[j]).id) {
                s.monitor_workspaces[s.monitors[j].id] == id
            } else {
                s.current == id
            }),
{
}

// ---- Frames ----------------------------------------------------------------------

/// A window that has a margin of its own to be grabbed at is hit the same
/// whatever margin is set for all, and one that has none as if the margin for
/// all were its own.
pub proof fn lemma_margin_of_its_own(s: Settings, w: Window, rect: Rect, margin: i32, x: int, y: int)
    ensures
        w.resize_margin is Some ==> frame_of(Settings { resize_margin: margin, ..s }, w, rect).hit(x, y) == frame_of(
            s,
            w,
            rect,
        ).hit(x, y),
        w.resize_margin == Some(margin) ==> frame_of(s, w, rect).resize_margin == margin,
        w.resize_margin is None ==> frame_of(s, w, rect) == frame_of(
            s,
            Window { resize_margin: Some(s.resize_margin), ..w },
            rect,
        ),
{
}

/// A frame has what the window has: its border, its titlebar if it is
/// decorated, and the fewer buttons of a dialog. Only where buttons follow the
/// window does one that cannot be resized lack the button to maximize it.
pub proof fn lemma_frame_of_window(s: Settings, w: Window, rect: Rect)
    ensures
        ({
            let f = frame_of(s, w, rect);
            &&& f.rect == rect && f.decorated == w.decorated && f.border_width == w.border_width
            &&& f.is_dialog == w.is_dialog
            &&& f.buttons_left == s.theme.buttons_left && f.order_override == s.theme.button_order
            &&& w.resizable ==> f.show_maximize
            &&& !s.theme.dynamic_buttons ==> f.show_maximize
            &&& s.theme.dynamic_buttons && !w.resizable ==> !f.show_maximize
        }),
{
}

/// An undecorated window has no titlebar: it can only be resized.
pub proof fn lemma_bare_window_only_resizes(s: Settings, w: Window, rect: Rect, x: int, y: int)
    requires
        !w.decorated,
    ensures
        frame_of(s, w, rect).hit(x, y) matches Some(h) ==> h is Resize,
{
}

// ---- Animation -------------------------------------------------------------------

/// A window that is put in a zone goes back to no earlier geometry if it was
/// maximized or fullscreen, and to the one it had noted otherwise. Where
/// windows are animated and it moves, it is noted from where.
pub proof fn lemma_zone_notes(s: State, id: u64, zone: SnapZoneKind)
    requires
        s.has(id),
        s.monitor_for(s.windows[id].monitor) is Some,
    ensures
        ({
            let before = s.windows[id];
            let after = s.snapped(id, zone).windows[id];
            &&& before.maximized || before.fullscreen ==> after.restore_geometry is None
            &&& !before.maximized && !before.fullscreen ==> after.restore_geometry == before.restore_geometry
            &&& s.settings.animations_enabled && after.geometry != before.geometry ==> after.anim_from == Some(
                before.geometry,
            )
            &&& !s.settings.animations_enabled || after.geometry == before.geometry ==> after.anim_from == before.anim_from
        }),
{
}

/// A window that is maximized or restored notes from where it moves, where
/// windows are animated and it moves. One without a geometry to go back to
/// stays where it is.
pub proof fn lemma_maximize_notes(s: State, id: u64)
    requires
        s.has(id),
    ensures
        ({
            let before = s.windows[id];
            let after = s.maximize_toggled(id).windows[id];
            &&& s.settings.animations_enabled && after.geometry != before.geometry ==> after.anim_from == Some(
                before.geometry,
            )
            &&& !s.settings.animations_enabled || after.geometry == before.geometry ==> after.anim_from == before.anim_from
            &&& before.maximized && before.restore_geometry is None ==> after.geometry == before.geometry
            &&& before.maximized ==> !after.maximized && after.restore_geometry is None
            &&& before.maximized && before.restore_geometry is Some ==> Some(after.geometry) == before.restore_geometry
            &&& s.monitor_for(before.monitor) is None && !before.maximized ==> after == before
            &&& !before.maximized && after.maximized ==> after.restore_geometry == Some(before.geometry)
            &&& after.fullscreen == before.fullscreen && after.decorated == before.decorated
            &&& after.restore_decorated == before.restore_decorated && after.floating == before.floating
        }),
{
}

/// A window that leaves fullscreen is decorated as it was, or decorated if that
/// was not noted. It notes from where it moves as a maximized one does.
pub proof fn lemma_fullscreen_notes(s: State, id: u64)
    requires
        s.has(id),
    ensures
        ({
            let before = s.windows[id];
            let after = s.fullscreen_toggled(id).windows[id];
            &&& s.settings.animations_enabled && after.geometry != before.geometry ==> after.anim_from == Some(
                before.geometry,
            )
            &&& !s.settings.animations_enabled || after.geometry == before.geometry ==> after.anim_from == before.anim_from
            &&& before.fullscreen ==> !after.fullscreen && after.restore_geometry is None && after.restore_decorated is None
            &&& before.fullscreen && before.restore_decorated is None ==> after.decorated
            &&& before.fullscreen && before.restore_decorated is Some ==> Some(after.decorated) == before.restore_decorated
            &&& before.fullscreen && before.restore_geometry is None ==> after.geometry == before.geometry
            &&& before.fullscreen && before.restore_geometry is Some ==> Some(after.geometry) == before.restore_geometry
            &&& before.fullscreen ==> after.maximized == before.maximized
            &&& !before.fullscreen && after.fullscreen ==> !after.maximized && !after.decorated && after.restore_decorated
                == Some(before.decorated)
            &&& !before.fullscreen && after.fullscreen && before.maximized ==> after.restore_geometry
                == before.restore_geometry
            &&& !before.fullscreen && after.fullscreen && !before.maximized ==> after.restore_geometry == Some(
                before.geometry,
            )
            &&& s.monitor_for(before.monitor) is None && !before.fullscreen ==> after == before
            &&& after.floating == before.floating
        }),
{
}

} // verus!
