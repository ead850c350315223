//! What the operations of the window manager do to windows, in terms of the
//! fields of the windows and of their geometries.
use super::super::ids::{lemma_filter, lemma_filter_push, lemma_position};
use super::super::{windows_ok, Direction, State};
use super::newcomer::{acted, asked, ruled};
use super::{
    covering, first_monitor, lemma_first_monitor, lemma_nearest, loose_in, marked_primary, maximize_toggled, pinned_in,
    placed_in, shown_in, with_id,
};
use crate::geometry::Rect;
use crate::monitor::Monitor;
use crate::placement::{centre_of, lemma_placed_covers_nothing, placed};
use crate::rules::{WindowRule, WindowRuleActions};
use crate::window::Window;
use vstd::prelude::*;

verus! {

// ---- Directions ----------------------------------------------------------------

/// The windows that the focus goes round are those of the current workspace that
/// are not minimized.
pub proof fn lemma_ring_holds_shown(s: State, id: u64)
    requires
        s.wf(),
    ensures
        s.ring().contains(id) <==> s.windows.contains_key(id) && s.windows[id].workspace == s.current
            && !s.windows[id].minimized,
{
    reveal(windows_ok);
    lemma_filter(s.created, shown_in(s.windows, s.current));
}

/// The window that a direction leads to has its centre on that side of the
/// focused one's: further left, right, up or down on the screen. It is on the
/// current workspace and not minimized. `id` is any other such window: where
/// its centre lies on that side there is a window to go to, and that one is no
/// further away, with the way across the direction counted double.
pub proof fn lemma_direction_leads_there(s: State, dir: Direction, id: u64)
    requires
        s.wf(),
        s.focused is Some,
    ensures
        ({
            let f = s.focused->Some_0;
            let here = s.windows[f].geometry;
            let x = here.x + here.width / 2;
            let y = here.y + here.height / 2;
            let there = s.windows[id].geometry;
            let to_x = there.x + there.width / 2;
            let to_y = there.y + there.height / 2;
            let candidate = s.windows.contains_key(id) && id != f && s.windows[id].workspace == s.current
                && !s.windows[id].minimized;
            let ahead = match dir {
                Direction::Left => to_x < x,
                Direction::Right => to_x > x,
                Direction::Up => to_y < y,
                Direction::Down => to_y > y,
            };
            match s.neighbour(dir) {
                Some(n) => {
                    let g = s.windows[n].geometry;
                    let nx = g.x + g.width / 2;
                    let ny = g.y + g.height / 2;
                    &&& s.windows.contains_key(n) && n != f
                    &&& s.windows[n].workspace == s.current && !s.windows[n].minimized
                    &&& dir is Left ==> nx < x
                    &&& dir is Right ==> nx > x
                    &&& dir is Up ==> ny < y
                    &&& dir is Down ==> ny > y
                    &&& candidate && ahead && (dir is Left || dir is Right) ==> (nx - x) * (nx - x) + (ny - y) * (ny - y)
                        * 4 <= (to_x - x) * (to_x - x) + (to_y - y) * (to_y - y) * 4
                    &&& candidate && ahead && (dir is Up || dir is Down) ==> (ny - y) * (ny - y) + (nx - x) * (nx - x)
                        * 4 <= (to_y - y) * (to_y - y) + (to_x - x) * (to_x - x) * 4
                },
                None => !(candidate && ahead),
            }
        }),
{
    reveal(windows_ok);
    let f = s.focused->Some_0;
    assert(s.has(f));
    let ids = s.ring();
    lemma_nearest(s.windows, ids, f, dir);
    lemma_ring_holds_shown(s, id);
    if let Some(n) = s.neighbour(dir) {
        lemma_ring_holds_shown(s, n);
    }
    if ids.contains(id) {
        let k = choose|k: int| 0 <= k < ids.len() && ids[k] == id;
        assert(ids[k] == id);
    }
}

/// Two windows that trade places have each other's geometry, and each is where
/// the other was in the stack. All other windows stay as they are.
pub proof fn lemma_traded_places(s: State, a: u64, b: u64, other: u64)
    requires
        s.wf(),
        s.has(a),
        s.has(b),
        a != b,
        other != a,
        other != b,
    ensures
        ({
            let t = s.swapped(a, b);
            &&& t.windows[a] == (Window { geometry: s.windows[b].geometry, ..s.windows[a] })
            &&& t.windows[b] == (Window { geometry: s.windows[a].geometry, ..s.windows[b] })
            &&& s.has(other) ==> t.windows[other] == s.windows[other]
            &&& t.has(other) == s.has(other)
            &&& t.order.len() == s.order.len()
            &&& t.focused == s.focused && t.created == s.created && t.current == s.current
            &&& s.order.no_duplicates() ==> forall|k: int|
                0 <= k < s.order.len() ==> #[trigger] t.order[k] == (if s.order[k] == a {
                    b
                } else if s.order[k] == b {
                    a
                } else {
                    s.order[k]
                })
        }),
{
    reveal(windows_ok);
    assert(s.order.contains(a) && s.order.contains(b));
    lemma_position(s.order, a);
    lemma_position(s.order, b);
}

/// A window that is pushed in a direction keeps its size and its other
/// coordinate, and ends at that edge of the area of its monitor.
pub proof fn lemma_pushed_to_edge(s: State, id: u64, dir: Direction, m: Monitor)
    requires
        s.has(id),
        s.monitor_for(s.windows[id].monitor) == Some(m),
        m.fits(),
        m.geometry.x + m.geometry.width - s.windows[id].geometry.width >= i32::MIN,
        m.geometry.y + m.geometry.height - s.windows[id].geometry.height >= i32::MIN,
    ensures
        ({
            let g = s.windows[id].geometry;
            let r = s.pushed(id, dir).windows[id].geometry;
            &&& s.pushed(id, dir) == s.with_window(id, Window { geometry: r, ..s.windows[id] })
            &&& r.width == g.width && r.height == g.height
            &&& dir is Left ==> r.x == m.geometry.x && r.y == g.y
            &&& dir is Right ==> r.x + r.width == m.geometry.x + m.geometry.width && r.y == g.y
            &&& dir is Up ==> r.y == m.geometry.y && r.x == g.x
            &&& dir is Down ==> r.y + r.height == m.geometry.y + m.geometry.height && r.x == g.x
        }),
{
}

// ---- Monitors ------------------------------------------------------------------

/// A monitor is looked up by its id. Where there is none with it, the one that
/// is marked as primary stands in, and without such a one the first.
pub proof fn lemma_monitor_for(s: State, id: u32, k: int)
    requires
        0 <= k < s.monitors.len(),
    ensures
        match s.monitor_for(id) {
            Some(m) => {
                &&& s.monitors.contains(m)
                &&& s.monitors[k].id == id ==> m.id == id
                &&& m.id != id && s.monitors[k].primary ==> m.primary
                &&& m.id != id && !m.primary ==> m == s.monitors[0]
            },
            None => false,
        },
{
    lemma_first_monitor(s.monitors, with_id(id));
    lemma_first_monitor(s.monitors, marked_primary());
    assert(s.monitors.contains(s.monitors[0]));
}

// ---- Rules ---------------------------------------------------------------------

/// The first rule that matches is found.
proof fn lemma_ruled_at(rules: Seq<WindowRule>, w: Window, i: int)
    requires
        0 <= i < rules.len(),
        rules[i].matcher.covers(w),
        forall|j: int| 0 <= j < i ==> !(#[trigger] rules[j]).matcher.covers(w),
    ensures
        ruled(rules, w) == Some(rules[i].actions),
    decreases rules.len(),
{
    if i > 0 {
        let rest = rules.skip(1);
        assert(!rules[0].matcher.covers(w));
        assert(rest[i - 1] == rules[i]);
        assert forall|j: int| 0 <= j < i - 1 implies !(#[trigger] rest[j]).matcher.covers(w) by {
            assert(rest[j] == rules[j + 1]);
        }
        lemma_ruled_at(rest, w, i - 1);
    }
}

/// No rule is found where none matches.
proof fn lemma_unruled(rules: Seq<WindowRule>, w: Window)
    requires
        forall|j: int| 0 <= j < rules.len() ==> !(#[trigger] rules[j]).matcher.covers(w),
    ensures
        ruled(rules, w) is None,
    decreases rules.len(),
{
    if rules.len() > 0 {
        let rest = rules.skip(1);
        assert forall|j: int| 0 <= j < rest.len() implies !(#[trigger] rest[j]).matcher.covers(w) by {
            assert(rest[j] == rules[j + 1]);
        }
        assert(!rules[0].matcher.covers(w));
        lemma_unruled(rest, w);
    }
}

/// Whether a rule matches a window rests on its title, class and instance alone.
pub proof fn lemma_matching_reads(rule: WindowRule, a: Window, b: Window)
    requires
        a.title@ == b.title@,
        a.app_id@ == b.app_id@,
        a.instance@ == b.instance@,
    ensures
        rule.matcher.covers(a) == rule.matcher.covers(b),
{
}

/// The new window as the rule and the theme shape it, before any maximizing.
proof fn lemma_shaped(s: State, window: Window, i: int)
    requires
        0 <= i < s.rules.len(),
        s.rules[i].matcher.covers(window),
        forall|j: int| 0 <= j < i ==> !(#[trigger] s.rules[j]).matcher.covers(window),
    ensures
        s.rule_for(window) == Some(s.rules[i].actions),
{
    let w = super::newcomer::dressed(window, s.settings.theme);
    lemma_matching_reads(s.rules[i], w, window);
    assert forall|j: int| 0 <= j < i implies !(#[trigger] s.rules[j]).matcher.covers(w) by {
        lemma_matching_reads(s.rules[j], w, window);
    }
    lemma_ruled_at(s.rules, w, i);
}

/// What the first rule that matches asks for is what a new window has. Where it
/// asks for nothing, the window has the theme's border and decoration, is on the
/// current workspace, and else is as it came.
pub proof fn lemma_rule_shapes_new_window(s: State, window: Window, i: int)
    requires
        0 <= i < s.rules.len(),
        s.rules[i].matcher.covers(window),
        forall|j: int| 0 <= j < i ==> !(#[trigger] s.rules[j]).matcher.covers(window),
    ensures
        ({
            let a = s.rules[i].actions;
            let theme = s.settings.theme;
            let w = s.added(window).windows[window.id];
            &&& w.id == window.id && w.title == window.title && w.app_id == window.app_id
            &&& w.rules_applied && w.minimized == window.minimized && w.fullscreen == window.fullscreen
            &&& w.floating == (if a.floating is Some { a.floating->Some_0 } else { window.floating })
            &&& w.decorated == (if a.decorated is Some { a.decorated->Some_0 } else { theme.default_decorated })
            &&& w.border_color == (if a.border_color is Some {
                a.border_color->Some_0
            } else {
                theme.default_border_color
            })
            &&& w.border_width == (if a.border_width is Some {
                a.border_width->Some_0
            } else {
                theme.default_border_width
            })
            &&& w.corner_radius == (if a.corner_radius is Some {
                a.corner_radius->Some_0
            } else {
                theme.default_corner_radius
            })
            &&& w.always_on_top == (if a.pinned is Some { a.pinned->Some_0 } else { window.always_on_top })
            &&& w.resize_margin == (if a.resize_margin is Some { a.resize_margin } else { window.resize_margin })
            &&& w.aspect_ratio == (if a.aspect_ratio is Some { a.aspect_ratio } else { window.aspect_ratio })
            &&& w.workspace == (if a.workspace is Some { a.workspace->Some_0 } else { s.current })
            &&& a.opacity is None ==> w.opacity == window.opacity
            &&& a.opacity matches Some(v) ==> {
                // From 0 to 1 as it is; what lies beyond is brought to that end.
                &&& v.bits <= 0x3f80_0000 ==> w.opacity == v
                &&& 0x3f80_0000 < v.bits <= 0x7f80_0000 ==> w.opacity.bits == 0x3f80_0000
                &&& 0x8000_0000 < v.bits <= 0xff80_0000 ==> w.opacity.bits == 0
            }
        }),
{
    lemma_shaped(s, window, i);
}

/// A new window opens maximized if the first rule that matches asks for that,
/// and then has the geometry that its monitor gives to maximized windows. It
/// does not if that rule asks for the opposite. Without a word of the rule it
/// does in phone mode, unless the rule makes it float.
pub proof fn lemma_rule_maximizes_new_window(s: State, window: Window, i: int)
    requires
        0 <= i < s.rules.len(),
        s.rules[i].matcher.covers(window),
        forall|j: int| 0 <= j < i ==> !(#[trigger] s.rules[j]).matcher.covers(window),
        !window.maximized,
        s.monitors.len() > 0,
    ensures
        ({
            let a = s.rules[i].actions;
            let w = s.added(window).windows[window.id];
            &&& a.maximized == Some(true) ==> w.maximized
            &&& a.maximized == Some(false) ==> !w.maximized
            &&& a.maximized is None ==> w.maximized == (s.settings.phone_mode && a.floating != Some(true))
            &&& w.maximized ==> (s.monitor_for(w.monitor) matches Some(m) && w.geometry == m.maximize_geometry)
            &&& w.maximized && a.geometry is Some ==> w.restore_geometry == a.geometry
            &&& !w.maximized && a.geometry is Some ==> w.geometry == a.geometry->Some_0
        }),
{
    lemma_shaped(s, window, i);
    lemma_monitor_for(s, s.newcomer(window).monitor, 0);
}

/// A new window that no rule matches has the theme's border and decoration, is
/// on the current workspace, and else is as it came. It opens maximized in phone
/// mode.
pub proof fn lemma_unruled_new_window(s: State, window: Window)
    requires
        forall|j: int| 0 <= j < s.rules.len() ==> !(#[trigger] s.rules[j]).matcher.covers(window),
        !window.maximized,
        s.monitors.len() > 0,
    ensures
        ({
            let theme = s.settings.theme;
            let w = s.added(window).windows[window.id];
            &&& w.id == window.id && w.title == window.title && w.app_id == window.app_id
            &&& w.minimized == window.minimized && w.fullscreen == window.fullscreen
            &&& w.floating == window.floating && w.always_on_top == window.always_on_top
            &&& w.opacity == window.opacity && w.resize_margin == window.resize_margin
            &&& w.aspect_ratio == window.aspect_ratio
            &&& w.decorated == theme.default_decorated && w.border_color == theme.default_border_color
            &&& w.border_width == theme.default_border_width && w.corner_radius == theme.default_corner_radius
            &&& w.workspace == s.current
            &&& w.rules_applied == (window.title@.len() > 0 || window.app_id@.len() > 0)
            &&& w.maximized == s.settings.phone_mode
            &&& w.maximized ==> (s.monitor_for(w.monitor) matches Some(m) && w.geometry == m.maximize_geometry)
        }),
{
    let w = super::newcomer::dressed(window, s.settings.theme);
    assert forall|j: int| 0 <= j < s.rules.len() implies !(#[trigger] s.rules[j]).matcher.covers(w) by {
        lemma_matching_reads(s.rules[j], w, window);
    }
    lemma_unruled(s.rules, w);
    lemma_monitor_for(s, s.newcomer(window).monitor, 0);
}

/// A rule that matches once the window has said what it is gives it all that it
/// asks for, and leaves the rest as it is.
pub proof fn lemma_rule_shapes_late(s: State, id: u64, i: int)
    requires
        s.has(id),
        !s.windows[id].rules_applied,
        s.windows[id].title@.len() > 0 || s.windows[id].app_id@.len() > 0,
        0 <= i < s.rules.len(),
        s.rules[i].matcher.covers(s.windows[id]),
        forall|j: int| 0 <= j < i ==> !(#[trigger] s.rules[j]).matcher.covers(s.windows[id]),
    ensures
        ({
            let a = s.rules[i].actions;
            let old = s.windows[id];
            let w = s.rules_reapplied(id).windows[id];
            &&& w.rules_applied
            &&& w.floating == (if a.floating is Some { a.floating->Some_0 } else { old.floating })
            &&& w.decorated == (if a.decorated is Some { a.decorated->Some_0 } else { old.decorated })
            &&& w.border_color == (if a.border_color is Some { a.border_color->Some_0 } else { old.border_color })
            &&& w.border_width == (if a.border_width is Some { a.border_width->Some_0 } else { old.border_width })
            &&& w.corner_radius == (if a.corner_radius is Some { a.corner_radius->Some_0 } else { old.corner_radius })
            &&& w.always_on_top == (if a.pinned is Some { a.pinned->Some_0 } else { old.always_on_top })
            &&& w.resize_margin == (if a.resize_margin is Some { a.resize_margin } else { old.resize_margin })
            &&& w.aspect_ratio == (if a.aspect_ratio is Some { a.aspect_ratio } else { old.aspect_ratio })
            &&& w.workspace == (if a.workspace is Some { a.workspace->Some_0 } else { old.workspace })
            &&& a.opacity is None ==> w.opacity == old.opacity
            &&& a.opacity matches Some(v) ==> (v.bits <= 0x3f80_0000 ==> w.opacity == v)
            &&& a.maximized != Some(true) ==> w.maximized == old.maximized && w.geometry == (if a.geometry is Some {
                a.geometry->Some_0
            } else {
                old.geometry
            })
            &&& a.maximized == Some(true) && !old.maximized && s.monitors.len() > 0 ==> w.maximized && (s.monitor_for(
                old.monitor,
            ) matches Some(m) && w.geometry == m.maximize_geometry)
        }),
{
    let a = s.rules[i].actions;
    lemma_ruled_at(s.rules, s.windows[id], i);
    if s.monitors.len() > 0 {
        lemma_monitor_for(s, s.windows[id].monitor, 0);
    }
    lemma_late_window(s, id, a);
}

/// The window that a late rule leaves.
proof fn lemma_late_window(s: State, id: u64, a: WindowRuleActions)
    requires
        s.rules_pending(id),
        ruled(s.rules, s.windows[id]) == Some(a),
    ensures
        ({
            let old = s.windows[id];
            let changed = Window {
                rules_applied: true,
                geometry: asked(a.geometry, old.geometry),
                workspace: asked(a.workspace, old.workspace),
                ..acted(old, a)
            };
            let area = match s.monitor_for(old.monitor) {
                Some(m) => Some(m.maximize_geometry),
                None => None,
            };
            s.rules_reapplied(id).windows[id] == if a.maximized == Some(true) {
                maximize_toggled(changed, area, s.settings.animations_enabled)
            } else {
                changed
            }
        }),
{
}

/// Rules are tried once: not on a window that has been through them, nor on one
/// that has said nothing. Where none matches, only the note that they were
/// tried changes.
pub proof fn lemma_rules_tried_once(s: State, id: u64)
    ensures
        s.has(id) && s.windows[id].rules_applied ==> s.rules_reapplied(id) == s,
        s.has(id) && s.windows[id].title@.len() == 0 && s.windows[id].app_id@.len() == 0 ==> s.rules_reapplied(id) == s,
        !s.has(id) ==> s.rules_reapplied(id) == s,
        s.has(id) && !s.windows[id].rules_applied && (s.windows[id].title@.len() > 0 || s.windows[id].app_id@.len() > 0)
            && (forall|j: int| 0 <= j < s.rules.len() ==> !(#[trigger] s.rules[j]).matcher.covers(s.windows[id]))
            ==> s.rules_reapplied(id) == s.with_window(id, Window { rules_applied: true, ..s.windows[id] }),
{
    if forall|j: int| 0 <= j < s.rules.len() ==> !(#[trigger] s.rules[j]).matcher.covers(s.windows[id]) {
        lemma_unruled(s.rules, s.windows[id]);
    }
}

// ---- Opening -------------------------------------------------------------------

/// A new window belongs on the monitor that the pointer is over. If that is not
/// known, on the monitor of the focused window, and else on the primary one.
/// `k` is any monitor.
pub proof fn lemma_opens_on(s: State, k: int)
    requires
        s.wf(),
        0 <= k < s.monitors.len(),
    ensures
        ({
            let pointed = s.pointer_monitor matches Some(p) && exists|j: int|
                0 <= j < s.monitors.len() && (#[trigger] s.monitors[j]).id == p;
            s.target_monitor() matches Some(m) && {
                &&& s.monitors.contains(m)
                &&& (s.pointer_monitor matches Some(p) && s.monitors[k].id == p) ==> s.pointer_monitor == Some(m.id)
                &&& !pointed && (s.focused matches Some(f) && s.monitors[k].id == s.windows[f].monitor) ==> m.id
                    == s.windows[s.focused->Some_0].monitor
                &&& !pointed && s.focused is None && s.monitors[k].primary ==> m.primary
            }
        }),
{
    lemma_first_monitor(s.monitors, marked_primary());
    assert(s.monitors.contains(s.monitors[0]));
    if let Some(p) = s.pointer_monitor {
        lemma_first_monitor(s.monitors, with_id(p));
        if let Some(m) = first_monitor(s.monitors, with_id(p)) {
            let j = choose|j: int| 0 <= j < s.monitors.len() && s.monitors[j] == m;
            assert(s.monitors[j].id == p);
        }
    }
    if let Some(f) = s.focused {
        lemma_first_monitor(s.monitors, with_id(s.windows[f].monitor));
    }
}

/// The geometries beside which a place is sought are those of the windows of the
/// workspace, each of them. Where a window is found among them.
pub proof fn lemma_occupied_by(s: State, workspace: usize, id: u64) -> (k: int)
    requires
        s.wf(),
        s.has(id),
        s.windows[id].workspace == workspace,
    ensures
        0 <= k < s.occupied(workspace).len(),
        s.occupied(workspace)[k] == s.windows[id].geometry,
{
    reveal(windows_ok);
    let ids = s.created.filter(placed_in(s.windows, workspace));
    lemma_filter(s.created, placed_in(s.windows, workspace));
    assert(ids.contains(id));
    choose|k: int| 0 <= k < ids.len() && ids[k] == id
}

/// The window whose geometry one of them is.
pub proof fn lemma_occupied_is_of(s: State, workspace: usize, k: int) -> (id: u64)
    requires
        s.wf(),
        0 <= k < s.occupied(workspace).len(),
    ensures
        s.has(id),
        s.windows[id].workspace == workspace,
        s.occupied(workspace)[k] == s.windows[id].geometry,
{
    reveal(windows_ok);
    let ids = s.created.filter(placed_in(s.windows, workspace));
    lemma_filter(s.created, placed_in(s.windows, workspace));
    assert(ids.contains(ids[k]));
    ids[k]
}

/// The window as it opens where no rule matches and phone mode is off.
proof fn lemma_plain_opening(s: State, window: Window)
    requires
        forall|j: int| 0 <= j < s.rules.len() ==> !(#[trigger] s.rules[j]).matcher.covers(window),
        !s.settings.phone_mode,
    ensures
        ({
            let p = s.prepared(window);
            let w = s.added(window).windows[window.id];
            &&& p.geometry == window.geometry && p.is_dialog == window.is_dialog && p.app_id == window.app_id
            &&& p.workspace == s.current && p.monitor == window.monitor
            &&& w.geometry == s.opening(p).geometry && w.monitor == s.opening(p).monitor
            &&& w.size_is_provisional == s.opening(p).provisional
            &&& s.added(window).cascade_step == s.step_after(p)
        }),
{
    let w = super::newcomer::dressed(window, s.settings.theme);
    assert forall|j: int| 0 <= j < s.rules.len() implies !(#[trigger] s.rules[j]).matcher.covers(w) by {
        lemma_matching_reads(s.rules[j], w, window);
    }
    lemma_unruled(s.rules, w);
}

/// Where its app's last window is known of, and that place is on a monitor, a
/// new window opens exactly there, and on that monitor.
pub proof fn lemma_opens_where_last(s: State, window: Window, last: (i32, i32, u32, u32), k: int)
    requires
        s.wf(),
        forall|j: int| 0 <= j < s.rules.len() ==> !(#[trigger] s.rules[j]).matcher.covers(window),
        !s.settings.phone_mode,
        !window.is_dialog,
        window.app_id@.len() > 0,
        s.remembered.contains_key(window.app_id@),
        s.remembered[window.app_id@] == last,
        0 <= k < s.monitors.len(),
        ({
            let g = s.monitors[k].full_geometry;
            g.x <= last.0 < g.x + g.width && g.y <= last.1 < g.y + g.height
        }),
    ensures
        ({
            let w = s.added(window).windows[window.id];
            &&& w.geometry.x == last.0 && w.geometry.y == last.1
            &&& w.geometry.width == last.2 && w.geometry.height == last.3
            &&& !w.size_is_provisional
            &&& s.added(window).cascade_step == s.cascade_step
            &&& exists|j: int|
                0 <= j < s.monitors.len() && (#[trigger] s.monitors[j]).id == w.monitor && s.monitors[j].full_geometry.x
                    <= last.0 < s.monitors[j].full_geometry.x + s.monitors[j].full_geometry.width
                    && s.monitors[j].full_geometry.y <= last.1 < s.monitors[j].full_geometry.y
                    + s.monitors[j].full_geometry.height
        }),
{
    lemma_plain_opening(s, window);
    lemma_opens_on(s, k);
    lemma_first_monitor(s.monitors, covering(last.0, last.1));
}

/// Where that place is on no monitor, the new window has the size of the last
/// one, and finds its place as if it had asked for that size.
pub proof fn lemma_opens_as_large_as_last(s: State, window: Window, m: Monitor, last: (i32, i32, u32, u32))
    requires
        s.wf(),
        forall|j: int| 0 <= j < s.rules.len() ==> !(#[trigger] s.rules[j]).matcher.covers(window),
        !s.settings.phone_mode,
        s.target_monitor() == Some(m),
        !window.is_dialog,
        window.app_id@.len() > 0,
        s.remembered.contains_key(window.app_id@),
        s.remembered[window.app_id@] == last,
        forall|k: int|
            0 <= k < s.monitors.len() ==> {
                let g = (#[trigger] s.monitors[k]).full_geometry;
                !(g.x <= last.0 < g.x + g.width && g.y <= last.1 < g.y + g.height)
            },
    ensures
        ({
            let t = s.added(window);
            let w = t.windows[window.id];
            let tiled = s.workspace_exists(s.current) && s.workspace_with(s.current).layout == "tiling"@;
            &&& w.monitor == m.id && !w.size_is_provisional
            &&& tiled ==> w.geometry == (Rect { width: last.2, height: last.3, ..window.geometry }) && t.cascade_step
                == s.cascade_step
            &&& !tiled ==> w.geometry == placed(
                m.geometry,
                s.occupied(s.current),
                (last.2, last.3),
                s.settings.placement,
                s.cascade_step,
            )
            &&& !tiled && s.cascade_step < u32::MAX ==> t.cascade_step == s.cascade_step + 1
            &&& !tiled && s.cascade_step == u32::MAX ==> t.cascade_step == 0
        }),
{
    lemma_plain_opening(s, window);
    lemma_first_monitor(s.monitors, covering(last.0, last.1));
    if let Some(home) = first_monitor(s.monitors, covering(last.0, last.1)) {
        let k = choose|k: int| 0 <= k < s.monitors.len() && s.monitors[k] == home;
        assert(s.monitors[k] == home);
    }
}

/// The size of a new window is not open to change where a rule gives it a
/// geometry, nor where it opens maximized.
pub proof fn lemma_new_size_settled(s: State, window: Window)
    ensures
        ({
            let w = s.added(window).windows[window.id];
            &&& w.maximized && !window.maximized ==> !w.size_is_provisional
            &&& (s.rule_for(window) matches Some(a) && a.geometry is Some) ==> !w.size_is_provisional
        }),
{
}

/// Otherwise a new window opens on the monitor that it belongs on. On a tiled
/// workspace it keeps its corner, for the layout to place it. A dialog is
/// centred. Any other finds a place beside the windows of the workspace, and
/// the step of the cascade goes on.
pub proof fn lemma_opens_on_target(s: State, window: Window, m: Monitor)
    requires
        s.wf(),
        forall|j: int| 0 <= j < s.rules.len() ==> !(#[trigger] s.rules[j]).matcher.covers(window),
        !s.settings.phone_mode,
        s.target_monitor() == Some(m),
        window.is_dialog || window.app_id@.len() == 0 || !s.remembered.contains_key(window.app_id@),
    ensures
        ({
            let t = s.added(window);
            let w = t.windows[window.id];
            let size = (window.geometry.width, window.geometry.height);
            let tiled = s.workspace_exists(s.current) && s.workspace_with(s.current).layout == "tiling"@;
            &&& w.monitor == m.id
            &&& w.size_is_provisional == !tiled
            &&& tiled ==> w.geometry == window.geometry && t.cascade_step == s.cascade_step
            &&& !tiled && window.is_dialog ==> w.geometry == centre_of(m.geometry, size.0, size.1) && t.cascade_step
                == s.cascade_step
            &&& !tiled && !window.is_dialog ==> {
                &&& w.geometry == placed(
                    m.geometry,
                    s.occupied(s.current),
                    size,
                    s.settings.placement,
                    s.cascade_step,
                )
                &&& s.cascade_step < u32::MAX ==> t.cascade_step == s.cascade_step + 1
                &&& s.cascade_step == u32::MAX ==> t.cascade_step == 0
            }
        }),
{
    lemma_plain_opening(s, window);
}

/// A new window of no more than a cell's size covers no window of its workspace,
/// as long as a cell of the grid is free of them.
///
/// The grid is given as for [`lemma_placed_covers_nothing`]: `col` and `row` are
/// those of a cell that no window of the workspace reaches into. `id` is any
/// window of the workspace.
pub proof fn lemma_new_window_covers_none(
    s: State,
    window: Window,
    m: Monitor,
    id: u64,
    side: int,
    w: int,
    h: int,
    col: int,
    row: int,
)
    requires
        s.wf(),
        forall|j: int| 0 <= j < s.rules.len() ==> !(#[trigger] s.rules[j]).matcher.covers(window),
        !s.settings.phone_mode,
        s.target_monitor() == Some(m),
        m.fits(),
        !window.is_dialog,
        window.app_id@.len() == 0 || !s.remembered.contains_key(window.app_id@),
        !(s.workspace_exists(s.current) && s.workspace_with(s.current).layout == "tiling"@),
        s.has(id),
        id != window.id,
        s.windows[id].workspace == s.current,
        1 <= side <= s.settings.placement.max_grid,
        side == s.settings.placement.max_grid || side * side > s.occupied(s.current).len(),
        side == 1 || (side - 1) * (side - 1) <= s.occupied(s.current).len(),
        side * w + (side + 1) * s.settings.placement.grid_margin <= m.geometry.width < side * (w + 1) + (side + 1)
            * s.settings.placement.grid_margin,
        side * h + (side + 1) * s.settings.placement.grid_margin <= m.geometry.height < side * (h + 1) + (side + 1)
            * s.settings.placement.grid_margin,
        w >= 200,
        h >= 150,
        0 <= col < side,
        0 <= row < side,
        window.geometry.width <= w,
        window.geometry.height <= h,
        forall|o: u64|
            s.has(o) && s.windows[o].workspace == s.current ==> {
                let e = (#[trigger] s.windows[o]).geometry;
                let x = m.geometry.x + s.settings.placement.grid_margin + col * (w + s.settings.placement.grid_margin);
                let y = m.geometry.y + s.settings.placement.grid_margin + row * (h + s.settings.placement.grid_margin);
                e.x + e.width <= x || x + w <= e.x || e.y + e.height <= y || y + h <= e.y
            },
    ensures
        ({
            let r = s.added(window).windows[window.id].geometry;
            let e = s.windows[id].geometry;
            &&& r.width == window.geometry.width && r.height == window.geometry.height
            &&& e.x + e.width <= r.x || r.x + r.width <= e.x || e.y + e.height <= r.y || r.y + r.height <= e.y
        }),
{
    let cfg = s.settings.placement;
    let taken = s.occupied(s.current);
    let size = (window.geometry.width, window.geometry.height);
    let k = lemma_occupied_by(s, s.current, id);
    assert forall|i: int| 0 <= i < taken.len() implies {
        let e = #[trigger] taken[i];
        let x = m.geometry.x + cfg.grid_margin + col * (w + cfg.grid_margin);
        let y = m.geometry.y + cfg.grid_margin + row * (h + cfg.grid_margin);
        e.x + e.width <= x || x + w <= e.x || e.y + e.height <= y || y + h <= e.y
    } by {
        let o = lemma_occupied_is_of(s, s.current, i);
        assert(s.windows[o].geometry == taken[i]);
    }
    lemma_placed_covers_nothing(m.geometry, taken, size, cfg, s.cascade_step, side, w, h, col, row);
    lemma_opens_on_target(s, window, m);
    assert(taken[k] == s.windows[id].geometry);
}

/// A new window is the last in the order of adding and the topmost in the stack,
/// but for windows that stay on top. It has the focus, on the workspace that it
/// was added to, and no workspace is switched.
pub proof fn lemma_new_window_on_top(s: State, window: Window)
    requires
        s.wf(),
        !s.has(window.id),
    ensures
        ({
            let t = s.added(window);
            &&& t.created == s.created.push(window.id)
            &&& t.focused == Some(window.id)
            &&& t.current == s.current && t.previous == s.previous && t.workspaces == s.workspaces
            &&& t.order.contains(window.id)
            &&& forall|k: int|
                0 <= k < t.order.len() && (forall|j: int| k <= j < t.order.len() ==> #[trigger] t.order[j] != window.id)
                    ==> t.windows[#[trigger] t.order[k]].always_on_top
        }),
{
    let id = window.id;
    let w = s.newcomer(window);
    let windows = s.windows.insert(id, w);
    let base = s.order.push(id);
    let p = loose_in(windows);
    let q = pinned_in(windows);
    lemma_filter_push(s.order, id, p);
    lemma_filter_push(s.order, id, q);
    lemma_filter(base, p);
    lemma_filter(base, q);
    let a = base.filter(p);
    let b = base.filter(q);
    let t = s.added(window);
    assert(t.order == a + b);
    let at = if w.always_on_top { a.len() + b.len() - 1 } else { a.len() - 1 };
    assert(t.order[at] == id);
    assert forall|k: int|
        0 <= k < t.order.len() && (forall|j: int| k <= j < t.order.len() ==> #[trigger] t.order[j] != id) implies t.windows[
    #[trigger] t.order[k]].always_on_top by {
        assert(k > at) by {
            if k <= at {
                assert(t.order[at] != id);
            }
        }
        assert(b.contains(b[k - a.len()]));
        assert(t.order[k] != id);
    }
}

} // verus!
