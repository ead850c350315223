//! What holds of the window manager's operations together.
use super::super::ids::{
    lemma_filter, lemma_filter_all, lemma_filter_none, lemma_filter_push, lemma_position, position_in, without_first,
};
use super::super::{monitors_ok, windows_ok, workspaces_ok, Direction, State};
use super::drag::{dragged_to, has_room, KEPT_VISIBLE};
use super::newcomer::{acted, asked, lemma_without_window_wf, rect_of, ruled};
use super::{
    covering, distance, each, first_hit, first_monitor, frame_of, hidden_in, homed, lemma_cycled_wf, lemma_first_monitor,
    lemma_first_other, lemma_focused_wf, lemma_highest, lemma_nearest, lemma_other_workspaces,
    lemma_ring, lemma_top_of, lemma_with_window_wf, lies, loose_in, marked_primary, other_key, other_output,
    other_part, other_pid, other_process,
    pinned_at, pinned_in, primary_of, rehomed, resynced, settled_all, showing, tiled_in, tiled_on,
    topmost_at, with_id,
};
use crate::geometry::Rect;
use crate::layout::{tiles, Layout, MasterStackLayout, TilingConfig};
use crate::monitor::Monitor;
use crate::rules::WindowRule;
use crate::window::Window;
use vstd::prelude::*;

verus! {

// ---- Maximizing and fullscreen ---------------------------------------------

/// Maximizing a window and then restoring it gives it back its geometry. All
/// else is as it was, but for the note of where an animation started and that
/// there is no geometry left to go back to.
pub proof fn lemma_maximize_twice(s: State, id: u64)
    requires
        s.has(id),
        !s.windows[id].maximized,
        s.monitor_for(s.windows[id].monitor) is Some,
    ensures
        ({
            let w = s.windows[id];
            let once = s.maximize_toggled(id);
            let twice = once.maximize_toggled(id);
            &&& once.windows[id].maximized
            &&& once.windows[id].geometry == s.monitor_for(w.monitor)->Some_0.maximize_geometry
            &&& once.windows[id].decorated == w.decorated
            &&& twice.windows[id] == (Window {
                restore_geometry: None,
                anim_from: twice.windows[id].anim_from,
                ..w
            })
            &&& twice == s.with_window(id, twice.windows[id])
        }),
{
    let once = s.maximize_toggled(id);
    let twice = once.maximize_toggled(id);
    assert(twice.windows =~= s.windows.insert(id, twice.windows[id]));
}

/// Making a window fullscreen and leaving that again gives it back its
/// geometry and its decoration.
pub proof fn lemma_fullscreen_twice(s: State, id: u64)
    requires
        s.has(id),
        !s.windows[id].fullscreen,
        !s.windows[id].maximized,
        s.monitor_for(s.windows[id].monitor) is Some,
    ensures
        ({
            let w = s.windows[id];
            let once = s.fullscreen_toggled(id);
            let twice = once.fullscreen_toggled(id);
            &&& once.windows[id].fullscreen && !once.windows[id].decorated
            &&& once.windows[id].geometry == s.monitor_for(w.monitor)->Some_0.full_geometry
            &&& twice.windows[id] == (Window {
                restore_geometry: None,
                restore_decorated: None,
                anim_from: twice.windows[id].anim_from,
                ..w
            })
            &&& twice == s.with_window(id, twice.windows[id])
        }),
{
    let twice = s.fullscreen_toggled(id).fullscreen_toggled(id);
    assert(twice.windows =~= s.windows.insert(id, twice.windows[id]));
}

/// A window that was maximized and then made fullscreen goes back to the
/// geometry that it had before either, and is neither after that.
pub proof fn lemma_fullscreen_from_maximized(s: State, id: u64)
    requires
        s.has(id),
        !s.windows[id].maximized,
        !s.windows[id].fullscreen,
        s.monitor_for(s.windows[id].monitor) is Some,
    ensures
        ({
            let w = s.windows[id];
            let left = s.maximize_toggled(id).fullscreen_toggled(id).fullscreen_toggled(id);
            &&& left.windows[id].geometry == w.geometry
            &&& left.windows[id].decorated == w.decorated
            &&& !left.windows[id].maximized && !left.windows[id].fullscreen
        }),
{
}

// ---- Stacking --------------------------------------------------------------

/// Whether no window that stays on top is under one that does not.
pub open spec fn pinned_on_top(s: State) -> bool {
    forall|i: int, j: int|
        0 <= i < j < s.order.len() && s.windows[#[trigger] s.order[i]].always_on_top ==> s.windows[
            #[trigger] s.order[j]].always_on_top
}

/// Restacking puts the windows that stay on top above all others.
proof fn lemma_restack_pins(s: State)
    ensures
        pinned_on_top(s.restack()),
{
    let a = s.order.filter(loose_in(s.windows));
    let b = s.order.filter(pinned_in(s.windows));
    lemma_filter(s.order, loose_in(s.windows));
    lemma_filter(s.order, pinned_in(s.windows));
    let order = s.restack().order;
    assert forall|i: int, j: int| 0 <= i < j < order.len() && s.windows[#[trigger] order[i]].always_on_top implies s.windows[
        #[trigger] order[j]].always_on_top by {
        if i < a.len() {
            assert(a.contains(a[i]));
        }
        assert(b.contains(b[j - a.len()]));
    }
}

/// However windows are raised, lowered, pinned, focused or added, and whatever
/// a rule that matches late asks for, the windows that stay on top are above
/// all others.
pub proof fn lemma_pinned_on_top(s: State, id: u64, window: Window)
    ensures
        pinned_on_top(s.raised(id)),
        pinned_on_top(s.lowered(id)),
        pinned_on_top(s.pin_toggled(id)),
        s.has(id) ==> pinned_on_top(s.focused_on(id)),
        pinned_on_top(s.added(window)),
        s.rules_pending(id) && ruled(s.rules, s.windows[id]) is Some ==> pinned_on_top(s.rules_reapplied(id)),
{
    let base = if s.has(id) {
        State { order: without_first(s.order, id).push(id), ..s }
    } else {
        s
    };
    lemma_restack_pins(base);
    let low = if s.has(id) {
        State { order: seq![id] + without_first(s.order, id), ..s }
    } else {
        s
    };
    lemma_restack_pins(low);
    let pin = if s.has(id) {
        s.with_window(id, Window { always_on_top: !s.windows[id].always_on_top, ..s.windows[id] })
    } else {
        s
    };
    lemma_restack_pins(pin);
    let there = s.marked_focused(id).followed(id);
    let up = if there.has(id) {
        State { order: without_first(there.order, id).push(id), ..there }
    } else {
        there
    };
    lemma_restack_pins(up);
    let w = s.newcomer(window);
    let step = s.step_after(s.prepared(window));
    let put = State {
        windows: s.windows.insert(window.id, w),
        created: if s.has(window.id) { s.created } else { s.created.push(window.id) },
        order: s.order.push(window.id),
        focused: Some(window.id),
        cascade_step: step,
        ..s
    };
    lemma_restack_pins(put);
    let there = s.joined(window.id, w, step);
    if s.opens_maximized(window) {
        lemma_maximizing_keeps_pins(there, window.id);
    }
    if s.rules_pending(id) && ruled(s.rules, s.windows[id]) is Some {
        lemma_late_rule_pins(s, id);
    }
}

/// A rule that matches late leaves the windows that stay on top above all
/// others.
proof fn lemma_late_rule_pins(s: State, id: u64)
    requires
        s.rules_pending(id),
        ruled(s.rules, s.windows[id]) is Some,
    ensures
        pinned_on_top(s.rules_reapplied(id)),
{
    let w = s.windows[id];
    let a = ruled(s.rules, w).unwrap();
    let changed = Window {
        rules_applied: true,
        geometry: asked(a.geometry, w.geometry),
        workspace: asked(a.workspace, w.workspace),
        ..acted(w, a)
    };
    let there = s.with_window(id, changed).restack();
    lemma_restack_pins(s.with_window(id, changed));
    if a.maximized == Some(true) {
        lemma_maximizing_keeps_pins(there, id);
    }
}

/// Maximizing a window keeps what stays on top there.
proof fn lemma_maximizing_keeps_pins(s: State, id: u64)
    requires
        pinned_on_top(s),
    ensures
        pinned_on_top(s.maximize_toggled(id)),
{
    let t = s.maximize_toggled(id);
    assert forall|i: int, j: int|
        0 <= i < j < t.order.len() && t.windows[#[trigger] t.order[i]].always_on_top implies t.windows[
        #[trigger] t.order[j]].always_on_top by {
        assert(s.windows[s.order[i]].always_on_top ==> s.windows[s.order[j]].always_on_top);
    }
}

/// A raised window is the topmost of all windows, or of those that do not stay
/// on top if it is one of them.
pub proof fn lemma_raised_is_topmost(s: State, id: u64)
    requires
        s.wf(),
        s.has(id),
    ensures
        ({
            let order = s.raised(id).order;
            let kind = s.windows[id].always_on_top;
            if kind { order.last() == id } else { order.filter(loose_in(s.windows)).last() == id }
        }),
{
    reveal(windows_ok);
    let base = without_first(s.order, id).push(id);
    lemma_filter_push(without_first(s.order, id), id, loose_in(s.windows));
    lemma_filter_push(without_first(s.order, id), id, pinned_in(s.windows));
    let a = base.filter(loose_in(s.windows));
    let b = base.filter(pinned_in(s.windows));
    let order = s.raised(id).order;
    assert(order == a + b);
    if s.windows[id].always_on_top {
        assert((a + b).last() == b.last());
    } else {
        lemma_filter(base, loose_in(s.windows));
        lemma_filter(base, pinned_in(s.windows));
        Seq::filter_distributes_over_add(a, b, loose_in(s.windows));
        assert forall|i: int| 0 <= i < a.len() implies loose_in(s.windows)(#[trigger] a[i]) by {
            assert(a.contains(a[i]));
        }
        assert forall|i: int| 0 <= i < b.len() implies !loose_in(s.windows)(#[trigger] b[i]) by {
            assert(b.contains(b[i]));
        }
        lemma_filter_all(a, loose_in(s.windows));
        lemma_filter_none(b, loose_in(s.windows));
        assert(a + Seq::<u64>::empty() =~= a);
    }
}

// ---- Focus and workspaces ----------------------------------------------------

/// A focused window shows: it is not minimized, its workspace is the one that
/// its monitor shows, and it has the focus.
pub proof fn lemma_focused_shows(s: State, id: u64)
    requires
        s.has(id),
        s.workspace_exists(s.windows[id].workspace),
    ensures
        ({
            let t = s.focused_on(id);
            &&& t.focused == Some(id)
            &&& t.has(id)
            &&& (t.on_show())(id)
        }),
{
    let a = s.marked_focused(id);
    let b = a.followed(id);
    assert(a.windows[id].workspace == s.windows[id].workspace);
    assert(a.focus_is_on(a.windows[id].workspace));
}

/// Focusing a window that shows already switches no workspace.
pub proof fn lemma_focus_stays(s: State, id: u64)
    requires
        s.has(id),
        s.windows[id].workspace == s.shown_on(s.windows[id].monitor),
    ensures
        ({
            let t = s.focused_on(id);
            &&& t.current == s.current
            &&& t.previous == s.previous
            &&& t.monitor_workspaces == s.monitor_workspaces
            &&& t.workspaces == s.workspaces
        }),
{
}

/// Switching to a workspace that does not exist changes nothing.
pub proof fn lemma_switch_nowhere(s: State, id: usize)
    requires
        !s.workspace_exists(s.switch_target(id)),
    ensures
        s.switched(id) == s,
{
}

/// Where switching goes back and forth, asking twice for one workspace leads
/// back to where it started.
pub proof fn lemma_back_and_forth(s: State, id: usize)
    requires
        s.wf(),
        s.settings.auto_back_and_forth,
        s.workspace_exists(id),
        id != s.current,
    ensures
        s.switched(id).current == id,
        s.switched(id).switched(id).current == s.current,
{
    reveal(workspaces_ok);
}

/// The same holds of switching one monitor, from a workspace that still exists.
/// What the other monitors show stays.
pub proof fn lemma_back_and_forth_on(s: State, id: usize, monitor: u32, other: u32)
    requires
        s.wf(),
        s.settings.auto_back_and_forth,
        s.workspace_exists(id),
        s.workspace_exists(s.shown_on(monitor)),
        id != s.shown_on(monitor),
    ensures
        ({
            let there = s.switched_on(id, monitor);
            let back = there.switched_on(id, monitor);
            &&& there.shown_on(monitor) == id
            &&& back.shown_on(monitor) == s.shown_on(monitor)
            &&& s.settings.per_monitor_workspaces && other != monitor ==> there.shown_on(other) == s.shown_on(other)
                && back.shown_on(other) == s.shown_on(other)
        }),
{
    if !s.settings.per_monitor_workspaces {
        lemma_back_and_forth(s, id);
    }
}

/// A removed workspace is gone: it does not exist, no window is on it, and it
/// is not the current one. No window is lost.
pub proof fn lemma_workspace_gone(s: State, id: usize)
    requires
        s.wf(),
        s.workspaces.len() > 1,
    ensures
        ({
            let t = s.without_workspace(id);
            &&& !t.workspace_exists(id)
            &&& t.workspace_exists(t.current)
            &&& forall|w: u64| #[trigger] t.has(w) <==> s.has(w)
            &&& forall|w: u64| #[trigger] t.has(w) ==> t.windows[w].workspace != id
        }),
{
    reveal(workspaces_ok);
    let t = s.without_workspace(id);
    lemma_other_workspaces(s.workspaces, id);
    assert(exists|i: int| 0 <= i < s.workspaces.len() && (#[trigger] s.workspaces[i]).id != id) by {
        assert(s.workspaces[0].id != s.workspaces[1].id);
    }
    lemma_first_other(s.workspaces, id);
    assert(!t.workspace_exists(id)) by {
        if t.workspace_exists(id) {
            let i = choose|i: int| 0 <= i < t.workspaces.len() && (#[trigger] t.workspaces[i]).id == id;
            assert(t.workspaces.contains(t.workspaces[i]));
        }
    }
    assert(t.workspace_exists(t.current)) by {
        let i = choose|i: int| 0 <= i < s.workspaces.len() && (#[trigger] s.workspaces[i]).id == t.current;
        assert(s.workspaces.contains(s.workspaces[i]));
        assert(t.workspaces.contains(s.workspaces[i]));
        let k = choose|k: int| 0 <= k < t.workspaces.len() && t.workspaces[k] == s.workspaces[i];
        assert(t.workspaces[k].id == t.current);
    }
}

/// Following a focused window of the current workspace changes neither the
/// windows, nor the current workspace, nor the focus.
proof fn lemma_followed(s: State, id: u64)
    requires
        s.has(id),
        s.focused == Some(id),
        s.windows[id].workspace == s.current,
    ensures
        s.followed(id).windows == s.windows,
        s.followed(id).created == s.created,
        s.followed(id).current == s.current,
        s.followed(id).focused == s.focused,
{
    let w = s.windows[id];
    assert(s.focus_is_on(w.workspace));
}

/// Focusing a window of the ring leaves the ring as it is.
proof fn lemma_focus_in_ring(s: State, id: u64)
    requires
        s.wf(),
        s.ring().contains(id),
    ensures
        s.focused_on(id).ring() == s.ring(),
        s.focused_on(id).focused == Some(id),
        s.focused_on(id).windows == s.windows,
{
    lemma_ring(s);
    lemma_marked(s, id);
    lemma_followed(s.marked_focused(id), id);
    lemma_raised_keeps(s.marked_focused(id).followed(id), id);
}

/// Marking a window that is not minimized changes only the focus.
proof fn lemma_marked(s: State, id: u64)
    requires
        s.has(id),
        !s.windows[id].minimized,
    ensures
        s.marked_focused(id).windows == s.windows,
{
    let w = s.windows[id];
    let same = Window { minimized: false, ..w };
    assert(same == w);
    assert(s.windows.insert(id, same) =~= s.windows);
}

/// Raising a window changes only the stack.
proof fn lemma_raised_keeps(s: State, id: u64)
    ensures
        s.raised(id).windows == s.windows,
        s.raised(id).created == s.created,
        s.raised(id).current == s.current,
        s.raised(id).focused == s.focused,
{
}

/// Going on to the next window and then back again leads to where it started.
pub proof fn lemma_cycle_back(s: State, forward: bool)
    requires
        s.wf(),
        s.focused matches Some(f) && s.ring().contains(f),
    ensures
        s.cycled(forward).cycled(!forward).focused == s.focused,
{
    let f = s.focused->Some_0;
    let ids = s.ring();
    let n = ids.len() as int;
    lemma_ring(s);
    lemma_position(ids, f);
    let p = position_in(ids, f);
    let next = s.next_in_ring(forward);
    let id = ids[next];
    assert(0 <= next < n);
    assert(ids.contains(id));
    lemma_focus_in_ring(s, id);
    let t = s.cycled(forward);
    lemma_cycled_wf(s, forward);
    lemma_ring(t);
    lemma_position(ids, id);
    assert(position_in(ids, id) == next);
    lemma_around(p, n, forward);
    assert(t.next_in_ring(!forward) == p);
    lemma_focus_in_ring(t, f);
}

/// One step round a ring of `n` and one back.
proof fn lemma_around(p: int, n: int, forward: bool)
    requires
        0 <= p < n,
    ensures
        ({
            let next = if forward { (p + 1) % n } else { (p + n - 1) % n };
            let back = if forward { (next + n - 1) % n } else { (next + 1) % n };
            back == p
        }),
{
    if forward {
        if p + 1 < n {
            vstd::arithmetic::div_mod::lemma_small_mod((p + 1) as nat, n as nat);
            vstd::arithmetic::div_mod::lemma_mod_add_multiples_vanish(p, n);
            vstd::arithmetic::div_mod::lemma_small_mod(p as nat, n as nat);
        } else {
            vstd::arithmetic::div_mod::lemma_mod_self_0(n);
            vstd::arithmetic::div_mod::lemma_small_mod((n - 1) as nat, n as nat);
        }
    } else {
        if p > 0 {
            vstd::arithmetic::div_mod::lemma_mod_add_multiples_vanish(p - 1, n);
            vstd::arithmetic::div_mod::lemma_small_mod((p - 1) as nat, n as nat);
            vstd::arithmetic::div_mod::lemma_small_mod(p as nat, n as nat);
        } else {
            vstd::arithmetic::div_mod::lemma_small_mod((n - 1) as nat, n as nat);
            vstd::arithmetic::div_mod::lemma_mod_self_0(n);
        }
    }
}

/// A minimized window does not have the focus.
pub proof fn lemma_minimized_loses_focus(s: State, id: u64)
    requires
        s.wf(),
        s.has(id),
    ensures
        s.minimized(id).has(id),
        s.minimized(id).windows[id].minimized,
        s.minimized(id).focused != Some(id),
{
    let hidden = s.with_window(id, Window { minimized: true, ..s.windows[id] });
    lemma_with_window_wf(s, id, Window { minimized: true, ..s.windows[id] });
    if s.focused == Some(id) {
        lemma_ring(hidden);
        if hidden.ring().len() > 0 {
            let next = hidden.ring()[hidden.next_in_ring(true)];
            assert(hidden.ring().contains(next));
            lemma_focus_in_ring(hidden, next);
        }
    }
}

/// The newest hidden window of the scratchpad pool is a window of it.
proof fn lemma_newest_hidden(s: State)
    requires
        s.wf(),
    ensures
        s.newest_hidden() matches Some(id) ==> s.has(id) && s.windows[id].scratchpad,
{
    reveal(windows_ok);
    lemma_filter(s.created, hidden_in(s.windows));
    lemma_highest(s.created.filter(hidden_in(s.windows)));
}

/// What moving a window to a workspace does to it.
proof fn lemma_sent(s: State, id: u64, workspace: usize)
    requires
        s.wf(),
        s.has(id),
    ensures
        s.moved_to_workspace(id, workspace).wf(),
        s.moved_to_workspace(id, workspace).has(id),
        s.moved_to_workspace(id, workspace).current == s.current,
        s.moved_to_workspace(id, workspace).windows[id].workspace == workspace,
        s.moved_to_workspace(id, workspace).windows[id].scratchpad == s.windows[id].scratchpad,
{
    lemma_with_window_wf(s, id, Window { workspace, ..s.windows[id] });
}

/// What restoring a window does to it.
proof fn lemma_restored(s: State, id: u64)
    requires
        s.wf(),
        s.has(id),
    ensures
        s.restored(id).wf(),
        s.restored(id).has(id),
        s.restored(id).current == s.current,
        s.restored(id).windows[id].workspace == s.windows[id].workspace,
        s.restored(id).windows[id].scratchpad == s.windows[id].scratchpad,
        !s.restored(id).windows[id].minimized,
{
    lemma_with_window_wf(s, id, Window { minimized: false, ..s.windows[id] });
}

/// Focusing a window that shows on the current workspace.
proof fn lemma_focus_here(s: State, id: u64)
    requires
        s.wf(),
        s.has(id),
        s.windows[id].workspace == s.current,
        !s.windows[id].minimized,
    ensures
        s.focused_on(id).wf(),
        s.focused_on(id).focused == Some(id),
        s.focused_on(id).windows == s.windows,
{
    lemma_focused_wf(s, id);
    lemma_marked(s, id);
    lemma_followed(s.marked_focused(id), id);
    lemma_raised_keeps(s.marked_focused(id).followed(id), id);
}

/// Showing the scratchpad brings its newest hidden window to the current
/// workspace and focuses it.
pub proof fn lemma_scratchpad_shows(s: State)
    requires
        s.wf(),
        s.focused matches Some(f) ==> !(s.windows[f].scratchpad && !s.windows[f].minimized),
        s.newest_hidden() is Some,
    ensures
        ({
            let id = s.newest_hidden()->Some_0;
            let t = s.scratchpad_toggled();
            &&& t.wf()
            &&& t.has(id)
            &&& t.focused == Some(id)
            &&& t.windows[id].workspace == s.current
            &&& t.windows[id].scratchpad
            &&& !t.windows[id].minimized
        }),
{
    let id = s.newest_hidden()->Some_0;
    lemma_newest_hidden(s);
    lemma_sent(s, id, s.current);
    let sent = s.moved_to_workspace(id, s.current);
    lemma_restored(sent, id);
    let there = sent.restored(id);
    lemma_focus_here(there, id);
    assert(s.scratchpad_toggled() == there.focused_on(id));
}

/// Showing the scratchpad while a window of it has the focus hides that.
pub proof fn lemma_scratchpad_hides(s: State)
    requires
        s.wf(),
        s.focused matches Some(f) && s.windows[f].scratchpad && !s.windows[f].minimized,
    ensures
        ({
            let id = s.focused->Some_0;
            let t = s.scratchpad_toggled();
            &&& t.has(id)
            &&& t.windows[id].minimized
            &&& t.focused != Some(id)
        }),
{
    reveal(windows_ok);
    lemma_minimized_loses_focus(s, s.focused->Some_0);
}

// ---- Opening and closing -----------------------------------------------------

/// A new window has the focus, and the others stay as they are.
pub proof fn lemma_added(s: State, window: Window)
    ensures
        ({
            let t = s.added(window);
            &&& t.focused == Some(window.id)
            &&& t.has(window.id)
            &&& t.windows.remove(window.id) == s.windows.remove(window.id)
        }),
{
    let t = s.added(window);
    assert(t.windows.remove(window.id) =~= s.windows.remove(window.id));
}

/// A removed window is gone, and no other is.
pub proof fn lemma_removed(s: State, id: u64)
    requires
        s.wf(),
    ensures
        ({
            let t = s.removed(id);
            &&& forall|x: u64| #[trigger] t.has(x) <==> s.has(x) && x != id
            &&& t.focused != Some(id)
        }),
{
    reveal(windows_ok);
    if s.has(id) {
        let t = s.without_window(id);
        lemma_without_window_wf(s, id);
        let workspace = s.windows[id].workspace;
        lemma_top_of(t, workspace);
        if t.order.len() > 0 {
            assert(t.order.contains(t.order.last()));
            lemma_focused_target(t, t.order.last());
        }
    }
}

/// What focusing a window does to the set of windows and to the focus.
proof fn lemma_focused_target(s: State, id: u64)
    requires
        s.wf(),
        s.has(id),
    ensures
        forall|x: u64| #[trigger] s.focused_on(id).has(x) <==> s.has(x),
        s.focused_on(id).focused == Some(id),
        s.focused_on(id).remembered == s.remembered,
        s.focused_on(id).monitors == s.monitors,
{
    let a = s.marked_focused(id);
    assert(a.focus_is_on(a.windows[id].workspace));
}

/// A window that is closed and opened again comes back where it was: its app's
/// next window has its geometry, if that lies on a monitor and no rule asks for
/// another.
pub proof fn lemma_reopens_in_place(s: State, id: u64, window: Window)
    requires
        s.wf(),
        s.has(id),
        s.windows[id].app_id@.len() > 0,
        !s.windows[id].maximized && !s.windows[id].fullscreen,
        window.app_id@ == s.windows[id].app_id@,
        !window.is_dialog,
        first_monitor(s.monitors, covering(s.windows[id].geometry.x, s.windows[id].geometry.y)) is Some,
        s.removed(id).rule_for(window) matches Some(a) ==> a.geometry is None,
    ensures
        ({
            let w = s.removed(id).newcomer(window);
            &&& w.geometry == s.windows[id].geometry
            &&& !w.size_is_provisional
        }),
{
    reveal(windows_ok);
    let w = s.windows[id];
    let t = s.removed(id);
    let gone = s.without_window(id);
    lemma_without_window_wf(s, id);
    lemma_top_of(gone, w.workspace);
    if gone.order.len() > 0 {
        assert(gone.order.contains(gone.order.last()));
        lemma_focused_target(gone, gone.order.last());
    }
    assert(t.remembered == gone.remembered);
    assert(t.monitors == s.monitors);
    let r = (w.geometry.x, w.geometry.y, w.geometry.width, w.geometry.height);
    assert(t.remembered.contains_key(w.app_id@) && t.remembered[w.app_id@] == r);
    let p = t.prepared(window);
    assert(p.app_id@ == w.app_id@ && !p.is_dialog);
    assert(t.recalled(p) == Some(r));
    lemma_first_monitor(s.monitors, covering(w.geometry.x, w.geometry.y));
    assert(s.monitors.len() > 0);
    assert(t.target_monitor() is Some);
    assert(rect_of(r) == w.geometry);
}

/// Of the rules that match a window, the first decides.
pub proof fn lemma_first_rule_decides(rules: Seq<WindowRule>, w: Window)
    ensures
        match ruled(rules, w) {
            Some(a) => exists|i: int|
                0 <= i < rules.len() && (#[trigger] rules[i]).matcher.covers(w) && rules[i].actions == a && forall|j: int|
                    0 <= j < i ==> !(#[trigger] rules[j]).matcher.covers(w),
            None => forall|j: int| 0 <= j < rules.len() ==> !(#[trigger] rules[j]).matcher.covers(w),
        },
    decreases rules.len(),
{
    if rules.len() > 0 && !rules[0].matcher.covers(w) {
        let rest = rules.skip(1);
        lemma_first_rule_decides(rest, w);
        match ruled(rest, w) {
            Some(a) => {
                let i = choose|i: int|
                    0 <= i < rest.len() && (#[trigger] rest[i]).matcher.covers(w) && rest[i].actions == a && forall|
                        j: int,
                    |
                        0 <= j < i ==> !(#[trigger] rest[j]).matcher.covers(w);
                assert(rules[i + 1] == rest[i]);
                assert forall|j: int| 0 <= j < i + 1 implies !(#[trigger] rules[j]).matcher.covers(w) by {
                    if j > 0 {
                        assert(rest[j - 1] == rules[j]);
                    }
                }
                assert(rules[i + 1].matcher.covers(w));
            },
            None => {
                assert forall|j: int| 0 <= j < rules.len() implies !(#[trigger] rules[j]).matcher.covers(w) by {
                    if j > 0 {
                        assert(rest[j - 1] == rules[j]);
                    }
                }
            },
        }
    }
}

// ---- Dragging ------------------------------------------------------------------

/// Letting go of a dragged window does what the preview showed: the window
/// goes to that zone, or stays where it is if there was none.
pub proof fn lemma_preview_is_kept(s: State, x: i32, y: i32)
    requires
        s.drag matches Some(d) && s.has(d.window),
    ensures
        ({
            let id = s.drag->Some_0.window;
            let t = s.dragged(x, y);
            let u = t.drag_ended();
            &&& u.drag is None
            &&& u.windows[id].geometry == (match t.snap_preview() {
                Some(zone) => zone,
                None => t.windows[id].geometry,
            })
        }),
{
    reveal(State::zone_at);
    let d = s.drag->Some_0;
    let t = s.dragged(x, y);
    let w = t.windows[d.window];
    let ended = State { drag: None, ..t };
    ended.lemma_let_go(w);
}

/// A dragged window keeps its size, a strip of it stays on the desktop, and its
/// top does not leave it.
pub proof fn lemma_drag_stays_visible(orig: Rect, dx: int, dy: int, desktop: Rect)
    requires
        desktop.fits(),
        has_room(orig, Some(desktop)),
        desktop.right_edge() - KEPT_VISIBLE >= i32::MIN,
    ensures
        ({
            let r = dragged_to(orig, dx, dy, Some(desktop));
            &&& r.width == orig.width && r.height == orig.height
            &&& r.right_edge() >= desktop.x + KEPT_VISIBLE
            &&& r.x <= desktop.right_edge() - KEPT_VISIBLE
            &&& desktop.y <= r.y <= desktop.bottom_edge() - KEPT_VISIBLE
        }),
{
}

// ---- Layouts and monitors --------------------------------------------------------

/// Whether a table places none but the windows in a list.
pub open spec fn places_only(slots: Map<u64, Rect>, ids: Seq<u64>) -> bool {
    forall|id: u64| #[trigger] slots.contains_key(id) ==> ids.contains(id)
}

/// What tables leave out stays as it is.
proof fn lemma_settled_others(windows: Map<u64, Window>, tables: Seq<Map<u64, Rect>>, id: u64)
    requires
        windows.contains_key(id),
        forall|k: int| 0 <= k < tables.len() ==> !(#[trigger] tables[k]).contains_key(id),
    ensures
        settled_all(windows, tables).contains_key(id),
        settled_all(windows, tables)[id] == windows[id],
    decreases tables.len(),
{
    if tables.len() > 0 {
        let front = tables.drop_last();
        assert forall|k: int| 0 <= k < front.len() implies !(#[trigger] front[k]).contains_key(id) by {
            assert(front[k] == tables[k]);
        }
        lemma_settled_others(windows, front, id);
        assert(!tables[tables.len() - 1].contains_key(id));
    }
}

/// Arranging a workspace leaves alone the windows of others, and those of its
/// own that float, are fullscreen or are minimized, if its layout places no
/// window but those that it is given.
pub proof fn lemma_arranging_leaves_others(s: State, workspace: usize, id: u64)
    requires
        s.has(id),
        !(tiled_in(s.windows, workspace))(id),
        s.arrangeable(workspace) ==> forall|ids: Seq<u64>, m: Monitor|
            places_only(
                #[trigger] s.layouts[s.workspace_with(workspace).layout].layout.slots(ids, m, s.settings.tiling),
                ids,
            ),
    ensures
        s.arranged(workspace).windows[id] == s.windows[id],
{
    if s.arrangeable(workspace) {
        let layout = s.workspace_with(workspace).layout;
        let tables = s.placements(workspace, layout);
        assert forall|k: int| 0 <= k < tables.len() implies !(#[trigger] tables[k]).contains_key(id) by {
            let monitor = s.monitors_used(workspace)[k];
            assert(tables[k] == s.slots_on(workspace, layout, monitor));
            let ids = s.order.filter(tiled_on(s.windows, workspace, monitor));
            lemma_filter(s.order, tiled_on(s.windows, workspace, monitor));
            if let Some(m) = s.monitor_for(monitor) {
                assert(places_only(s.layouts[layout].layout.slots(ids, m, s.settings.tiling), ids));
            }
        }
        lemma_settled_others(s.windows, tables, id);
    }
}

/// The layouts that come with the window manager place no window but those
/// that they are given.
pub proof fn lemma_own_layouts_place_only(ids: Seq<u64>, m: Monitor, cfg: TilingConfig)
    ensures
        places_only(MasterStackLayout.slots(ids, m, cfg), ids),
{
    let area = m.geometry.shrunk(cfg.gap_outer);
    lemma_tiles_only(ids, area, cfg, ids.len() as int);
}

proof fn lemma_tiles_only(ids: Seq<u64>, area: Rect, cfg: TilingConfig, k: int)
    requires
        k <= ids.len(),
    ensures
        places_only(tiles(ids, area, cfg, k), ids),
    decreases k,
{
    if k > 0 {
        lemma_tiles_only(ids, area, cfg, k - 1);
        assert(ids.contains(ids[k - 1]));
    }
}

/// Setting layouts changes no window.
proof fn lemma_relaid_windows(s: State, monitors: Seq<Monitor>, primary: u32, workspace: usize)
    ensures
        s.others_relaid(monitors, primary, workspace).windows == s.windows,
    decreases monitors.len(),
{
    if monitors.len() > 0 {
        lemma_relaid_windows(s, monitors.drop_last(), primary, workspace);
    }
}

/// After a change of monitors every window is still there and belongs to one
/// of them. One that is neither maximized nor fullscreen stays where it is if a
/// monitor shows it there, and if it has a size, some monitor shows it.
pub proof fn lemma_rehomed(s: State, monitors: Seq<Monitor>, id: u64)
    requires
        s.has(id),
        monitors_ok(monitors),
        monitors.len() > 0,
    ensures
        ({
            let w = s.with_monitors(monitors).windows[id];
            let plain = !s.windows[id].maximized && !s.windows[id].fullscreen;
            &&& s.with_monitors(monitors).has(id)
            &&& first_monitor(monitors, with_id(w.monitor)) is Some
            &&& plain && first_monitor(monitors, showing(s.windows[id].geometry)) is Some ==> w.geometry
                == s.windows[id].geometry
            &&& plain && w.geometry.width > 0 && w.geometry.height > 0 ==> exists|i: int|
                0 <= i < monitors.len() && (#[trigger] monitors[i]).geometry.meets(w.geometry)
        }),
{
    reveal(monitors_ok);
    let old = s.windows[id];
    lemma_first_monitor(monitors, marked_primary());
    lemma_first_monitor(monitors, showing(old.geometry));
    let primary = primary_of(monitors)->Some_0;
    assert(monitors.contains(primary)) by {
        assert(monitors.contains(monitors[0]));
    }
    let p = choose|p: int| 0 <= p < monitors.len() && monitors[p] == primary;
    let moved = State { monitors, windows: each(s.windows, rehomed(monitors, primary)), ..s };
    let ws = moved.shown_on(primary.id);
    lemma_relaid_windows(moved, monitors, primary.id, ws);
    lemma_relaid_windows(moved.primary_relaid(ws), monitors, primary.id, ws);
    assert(s.with_monitors(monitors).windows == moved.windows);
    let h = homed(old, monitors, primary);
    let w = moved.windows[id];
    assert(w == resynced(h, monitors));
    lemma_first_monitor(monitors, with_id(h.monitor));
    lemma_first_monitor(monitors, with_id(old.monitor));
    match first_monitor(monitors, showing(old.geometry)) {
        Some(m) => {
            let i = choose|i: int| 0 <= i < monitors.len() && monitors[i] == m;
            assert(monitors[i].geometry.meets(old.geometry));
            if first_monitor(monitors, with_id(h.monitor)) is None {
                assert(!(with_id(h.monitor))(monitors[i]));
            }
        },
        None => {
            assert(monitors[p].fits());
            if first_monitor(monitors, with_id(h.monitor)) is None {
                assert(!(with_id(h.monitor))(monitors[p]));
            }
            assert(h.geometry == old.geometry.moved_into(primary.geometry));
            assert(h.geometry.width > 0 && h.geometry.height > 0 ==> monitors[p].geometry.meets(h.geometry));
        },
    }
}

// ---- The pointer -----------------------------------------------------------------

/// What is under a point is the first of the windows, from the front, that the
/// point is on.
pub proof fn lemma_topmost(windows: Map<u64, Window>, ids: Seq<u64>, x: i32, y: i32)
    ensures
        match topmost_at(windows, ids, x, y) {
            Some(id) => exists|k: int|
                0 <= k < ids.len() && #[trigger] ids[k] == id && windows[id].geometry.covers(x as int, y as int)
                    && forall|j: int|
                    0 <= j < k ==> !windows[#[trigger] ids[j]].geometry.covers(x as int, y as int),
            None => forall|j: int|
                0 <= j < ids.len() ==> !windows[#[trigger] ids[j]].geometry.covers(x as int, y as int),
        },
    decreases ids.len(),
{
    if ids.len() > 0 && !windows[ids[0]].geometry.covers(x as int, y as int) {
        let rest = ids.skip(1);
        lemma_topmost(windows, rest, x, y);
        match topmost_at(windows, rest, x, y) {
            Some(id) => {
                let k = choose|k: int|
                    0 <= k < rest.len() && #[trigger] rest[k] == id && windows[id].geometry.covers(x as int, y as int)
                        && forall|j: int|
                        0 <= j < k ==> !windows[#[trigger] rest[j]].geometry.covers(x as int, y as int);
                assert(ids[k + 1] == id);
                assert forall|j: int| 0 <= j < k + 1 implies !windows[#[trigger] ids[j]].geometry.covers(
                    x as int,
                    y as int,
                ) by {
                    if j > 0 {
                        assert(rest[j - 1] == ids[j]);
                    }
                }
            },
            None => {
                assert forall|j: int| 0 <= j < ids.len() implies !windows[#[trigger] ids[j]].geometry.covers(
                    x as int,
                    y as int,
                ) by {
                    if j > 0 {
                        assert(rest[j - 1] == ids[j]);
                    }
                }
            },
        }
    }
}

/// What is hit is the frame of the first of the windows, from the front, whose
/// frame the point is on, and no content of one before it is there.
pub proof fn lemma_first_hit(s: State, ids: Seq<u64>, rects: Seq<Rect>, x: i32, y: i32)
    requires
        rects.len() == ids.len(),
    ensures
        first_hit(s, ids, rects, x, y) matches Some(h) ==> exists|k: int|
            0 <= k < ids.len() && #[trigger] ids[k] == h.0 && frame_of(s.settings, s.windows[h.0], rects[k]).hit(
                x as int,
                y as int,
            ) == Some(h.1) && forall|j: int|
                0 <= j < k ==> !(#[trigger] rects[j]).covers(x as int, y as int) && frame_of(
                    s.settings,
                    s.windows[ids[j]],
                    rects[j],
                ).hit(x as int, y as int) is None,
    decreases ids.len(),
{
    if ids.len() > 0 {
        let front = frame_of(s.settings, s.windows[ids[0]], rects[0]).hit(x as int, y as int);
        if front is None && !rects[0].covers(x as int, y as int) {
            let rest = ids.skip(1);
            let below = rects.skip(1);
            lemma_first_hit(s, rest, below, x, y);
            if let Some(h) = first_hit(s, rest, below, x, y) {
                let k = choose|k: int|
                    0 <= k < rest.len() && #[trigger] rest[k] == h.0 && frame_of(
                        s.settings,
                        s.windows[h.0],
                        below[k],
                    ).hit(x as int, y as int) == Some(h.1) && forall|j: int|
                        0 <= j < k ==> !(#[trigger] below[j]).covers(x as int, y as int) && frame_of(
                            s.settings,
                            s.windows[rest[j]],
                            below[j],
                        ).hit(x as int, y as int) is None;
                assert(ids[k + 1] == h.0 && rects[k + 1] == below[k]);
                assert forall|j: int| 0 <= j < k + 1 implies !(#[trigger] rects[j]).covers(x as int, y as int)
                    && frame_of(s.settings, s.windows[ids[j]], rects[j]).hit(x as int, y as int) is None by {
                    if j > 0 {
                        assert(below[j - 1] == rects[j] && rest[j - 1] == ids[j]);
                    }
                }
            }
        } else if front is Some {
            assert(ids[0] == first_hit(s, ids, rects, x, y)->Some_0.0);
        }
    }
}

/// No window is nearer in a direction than the neighbour there, and there is
/// one wherever a window of the ring lies in that direction.
pub proof fn lemma_neighbour_is_nearest(s: State, dir: Direction, id: u64)
    requires
        s.wf(),
        s.focused is Some,
        s.ring().contains(id),
        s.focused != Some(id),
        lies(dir, s.windows[s.focused->Some_0].geometry, s.windows[id].geometry),
    ensures
        s.neighbour(dir) matches Some(n) && distance(
            dir,
            s.windows[s.focused->Some_0].geometry,
            s.windows[n].geometry,
        ) <= distance(dir, s.windows[s.focused->Some_0].geometry, s.windows[id].geometry),
{
    reveal(windows_ok);
    let f = s.focused->Some_0;
    lemma_nearest(s.windows, s.ring(), f, dir);
    let k = choose|k: int| 0 <= k < s.ring().len() && s.ring()[k] == id;
    assert(s.ring()[k] == id);
}

// ---- Requests --------------------------------------------------------------------

/// Of the requests for an output's position, one is left: the last.
pub proof fn lemma_position_replaced(queue: Seq<(u32, i32, i32)>, id: u32, x: i32, y: i32)
    ensures
        ({
            let after = queue.filter(other_output(id)).push((id, x, y));
            &&& after.last() == (id, x, y)
            &&& forall|k: int| 0 <= k < after.len() - 1 ==> (#[trigger] after[k]).0 != id
        }),
{
    let kept = queue.filter(other_output(id));
    assert forall|k: int| 0 <= k < kept.len() implies (#[trigger] kept[k]).0 != id by {
        queue.lemma_filter_pred(other_output(id), k);
    }
}

/// The same holds of the requests to switch an output on or off, to split a
/// monitor, and to pin the input of a process.
pub proof fn lemma_requests_replaced(
    enable: Seq<(Seq<char>, bool)>,
    split: Seq<(Seq<char>, u32, bool)>,
    pin: Seq<(i32, Option<u64>)>,
    name: Seq<char>,
    pid: i32,
)
    ensures
        forall|k: int|
            0 <= k < enable.filter(other_key(name)).len() ==> (#[trigger] enable.filter(other_key(name))[k]).0 != name,
        forall|k: int|
            0 <= k < split.filter(other_part(name)).len() ==> (#[trigger] split.filter(other_part(name))[k]).0 != name,
        forall|k: int| 0 <= k < pin.filter(other_pid(pid)).len() ==> (#[trigger] pin.filter(other_pid(pid))[k]).0 != pid,
        forall|k: int|
            0 <= k < enable.len() && enable[k].0 != name ==> enable.filter(other_key(name)).contains(#[trigger] enable[k]),
        forall|k: int|
            0 <= k < split.len() && split[k].0 != name ==> split.filter(other_part(name)).contains(#[trigger] split[k]),
        forall|k: int| 0 <= k < pin.len() && pin[k].0 != pid ==> pin.filter(other_pid(pid)).contains(#[trigger] pin[k]),
{
    assert forall|k: int| 0 <= k < enable.filter(other_key(name)).len() implies (#[trigger] enable.filter(
        other_key(name),
    )[k]).0 != name by {
        enable.lemma_filter_pred(other_key(name), k);
    }
    assert forall|k: int| 0 <= k < split.filter(other_part(name)).len() implies (#[trigger] split.filter(
        other_part(name),
    )[k]).0 != name by {
        split.lemma_filter_pred(other_part(name), k);
    }
    assert forall|k: int| 0 <= k < pin.filter(other_pid(pid)).len() implies (#[trigger] pin.filter(other_pid(pid))[k]).0
        != pid by {
        pin.lemma_filter_pred(other_pid(pid), k);
    }
    assert forall|k: int| 0 <= k < enable.len() && enable[k].0 != name implies enable.filter(other_key(name)).contains(
        #[trigger] enable[k],
    ) by {
        enable.lemma_filter_contains(other_key(name), k);
    }
    assert forall|k: int| 0 <= k < split.len() && split[k].0 != name implies split.filter(other_part(name)).contains(
        #[trigger] split[k],
    ) by {
        split.lemma_filter_contains(other_part(name), k);
    }
    assert forall|k: int| 0 <= k < pin.len() && pin[k].0 != pid implies pin.filter(other_pid(pid)).contains(
        #[trigger] pin[k],
    ) by {
        pin.lemma_filter_contains(other_pid(pid), k);
    }
}

/// A process that is pinned to a window is found there, and other processes
/// where they were.
pub proof fn lemma_pinned_found(pinned: Seq<(i32, u64)>, pid: i32, id: u64, other: i32)
    requires
        other != pid,
    ensures
        ({
            let after = pinned.filter(other_process(pid)).push((pid, id));
            &&& pinned_at(after, pid) == Some(id)
            &&& pinned_at(after, other) == pinned_at(pinned, other)
        }),
{
    let kept = pinned.filter(other_process(pid));
    assert forall|k: int| 0 <= k < kept.len() implies (#[trigger] kept[k]).0 != pid by {
        pinned.lemma_filter_pred(other_process(pid), k);
    }
    lemma_pinned_last(kept, pid, id);
    lemma_pinned_skips(kept, other, (pid, id));
    lemma_pinned_kept(pinned, pid, other);
}

proof fn lemma_pinned_last(kept: Seq<(i32, u64)>, pid: i32, id: u64)
    requires
        forall|k: int| 0 <= k < kept.len() ==> (#[trigger] kept[k]).0 != pid,
    ensures
        pinned_at(kept.push((pid, id)), pid) == Some(id),
    decreases kept.len(),
{
    let all = kept.push((pid, id));
    if kept.len() > 0 {
        assert(all[0] == kept[0]);
        assert(all.skip(1) =~= kept.skip(1).push((pid, id)));
        assert forall|k: int| 0 <= k < kept.skip(1).len() implies (#[trigger] kept.skip(1)[k]).0 != pid by {
            assert(kept.skip(1)[k] == kept[k + 1]);
        }
        lemma_pinned_last(kept.skip(1), pid, id);
    }
}

proof fn lemma_pinned_skips(list: Seq<(i32, u64)>, pid: i32, e: (i32, u64))
    requires
        e.0 != pid,
    ensures
        pinned_at(list.push(e), pid) == pinned_at(list, pid),
    decreases list.len(),
{
    if list.len() > 0 {
        assert(list.push(e)[0] == list[0]);
        assert(list.push(e).skip(1) =~= list.skip(1).push(e));
        lemma_pinned_skips(list.skip(1), pid, e);
    } else {
        assert(list.push(e).skip(1) =~= list);
    }
}

proof fn lemma_pinned_kept(pinned: Seq<(i32, u64)>, pid: i32, other: i32)
    requires
        other != pid,
    ensures
        pinned_at(pinned.filter(other_process(pid)), other) == pinned_at(pinned, other),
    decreases pinned.len(),
{
    reveal(Seq::filter);
    let p = other_process(pid);
    if pinned.len() > 0 {
        let first = pinned[0];
        let rest = pinned.skip(1);
        lemma_pinned_kept(pinned.skip(1), pid, other);
        assert(pinned =~= seq![first] + rest);
        Seq::filter_distributes_over_add(seq![first], rest, p);
        assert(seq![first].drop_last() =~= Seq::empty());
        assert(Seq::<(i32, u64)>::empty().filter(p) =~= Seq::empty());
        let head = seq![first].filter(p);
        if p(first) {
            assert(head =~= seq![first]);
            assert((head + rest.filter(p)).skip(1) =~= rest.filter(p));
        } else {
            assert(head =~= Seq::empty());
            assert(head + rest.filter(p) =~= rest.filter(p));
        }
    }
}

} // verus!
