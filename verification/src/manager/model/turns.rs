//! What comes on top, what is focused next, and where switching leads, in terms
//! of the places of windows in the stack and in the order they were added.
use super::super::ids::{
    lemma_filter, lemma_filter_empty, lemma_filter_none, lemma_filter_push, lemma_position, lemma_without, position_in,
    without, without_first,
};
use super::super::{windows_ok, workspaces_ok, State};
use super::newcomer::lemma_without_window_wf;
use super::{
    first_other, hidden_in, lemma_highest, lemma_ring, loose_in, pinned_in, restacked, shown_in,
};
use crate::window::Window;
use vstd::prelude::*;

verus! {

// ---- Lists ---------------------------------------------------------------------

/// The first of the ids that are picked, and where it is.
proof fn lemma_first_picked(s: Seq<u64>, p: spec_fn(u64) -> bool) -> (k: int)
    requires
        s.filter(p).len() > 0,
    ensures
        0 <= k < s.len(),
        s[k] == s.filter(p)[0],
        p(s[k]),
        forall|j: int| 0 <= j < k ==> !p(#[trigger] s[j]),
    decreases s.len(),
{
    if s.len() == 0 {
        lemma_filter_empty(p);
        assert(s =~= Seq::<u64>::empty());
        0
    } else {
        let front = s.drop_last();
        assert(front.push(s.last()) =~= s);
        lemma_filter_push(front, s.last(), p);
        lemma_filter(front, p);
        if front.filter(p).len() > 0 {
            let k = lemma_first_picked(front, p);
            assert forall|j: int| 0 <= j < k implies !p(#[trigger] s[j]) by {
                assert(front[j] == s[j]);
            }
            k
        } else {
            assert forall|j: int| 0 <= j < front.len() implies !p(#[trigger] s[j]) by {
                assert(front[j] == s[j]);
                if p(s[j]) {
                    assert(front.contains(front[j]));
                    assert(front.filter(p).contains(front[j]));
                }
            }
            s.len() - 1
        }
    }
}

/// Two ids that are picked come in the order they were in: their places.
pub proof fn lemma_picked_in_order(s: Seq<u64>, p: spec_fn(u64) -> bool, i: int, j: int) -> (places: (int, int))
    requires
        0 <= i < j < s.filter(p).len(),
    ensures
        0 <= places.0 < places.1 < s.len(),
        s[places.0] == s.filter(p)[i],
        s[places.1] == s.filter(p)[j],
    decreases s.len(),
{
    if s.len() == 0 {
        lemma_filter_empty(p);
        assert(s =~= Seq::<u64>::empty());
        (0, 0)
    } else {
        let front = s.drop_last();
        assert(front.push(s.last()) =~= s);
        lemma_filter_push(front, s.last(), p);
        lemma_filter(front, p);
        if j < front.filter(p).len() {
            lemma_picked_in_order(front, p, i, j)
        } else {
            assert(front.filter(p).contains(front.filter(p)[i]));
            let k = choose|k: int| 0 <= k < front.len() && front[k] == front.filter(p)[i];
            (k, s.len() - 1)
        }
    }
}

/// Picking twice is picking by the narrower condition.
proof fn lemma_picked_twice(s: Seq<u64>, p: spec_fn(u64) -> bool, q: spec_fn(u64) -> bool)
    requires
        forall|x: u64| #[trigger] q(x) ==> p(x),
    ensures
        s.filter(p).filter(q) == s.filter(q),
    decreases s.len(),
{
    if s.len() == 0 {
        lemma_filter_empty(p);
        lemma_filter_empty(q);
        assert(s =~= Seq::<u64>::empty());
    } else {
        let front = s.drop_last();
        let x = s.last();
        assert(front.push(x) =~= s);
        lemma_filter_push(front, x, p);
        lemma_filter_push(front, x, q);
        lemma_picked_twice(front, p, q);
        if p(x) {
            lemma_filter_push(front.filter(p), x, q);
        }
    }
}

/// Taking out what is not picked anyway changes nothing.
proof fn lemma_picked_without(s: Seq<u64>, k: int, q: spec_fn(u64) -> bool)
    requires
        0 <= k < s.len(),
        !q(s[k]),
    ensures
        s.remove(k).filter(q) == s.filter(q),
    decreases s.len(),
{
    let front = s.drop_last();
    let x = s.last();
    assert(front.push(x) =~= s);
    lemma_filter_push(front, x, q);
    if k < s.len() - 1 {
        lemma_picked_without(front, k, q);
        assert(s.remove(k) =~= front.remove(k).push(x));
        lemma_filter_push(front.remove(k), x, q);
    } else {
        assert(s.remove(k) =~= front);
    }
}

// ---- The stack -----------------------------------------------------------------

/// What holds of the windows but `id` that stay on top, or of those that do not.
pub open spec fn others_alike(windows: Map<u64, Window>, id: u64, pinned: bool) -> spec_fn(u64) -> bool {
    |x: u64| x != id && windows[x].always_on_top == pinned
}

/// Moving the windows that stay on top there keeps the order among them, and
/// the order among the others.
proof fn lemma_restacked_alike(windows: Map<u64, Window>, order: Seq<u64>, id: u64, pinned: bool)
    ensures
        restacked(windows, order).filter(others_alike(windows, id, pinned)) == order.filter(
            others_alike(windows, id, pinned),
        ),
{
    let q = others_alike(windows, id, pinned);
    let a = order.filter(loose_in(windows));
    let b = order.filter(pinned_in(windows));
    lemma_filter(order, loose_in(windows));
    lemma_filter(order, pinned_in(windows));
    Seq::filter_distributes_over_add(a, b, q);
    if pinned {
        lemma_picked_twice(order, pinned_in(windows), q);
        assert forall|i: int| 0 <= i < a.len() implies !q(#[trigger] a[i]) by {
            assert(a.contains(a[i]));
        }
        lemma_filter_none(a, q);
        assert(Seq::<u64>::empty() + b.filter(q) =~= b.filter(q));
    } else {
        lemma_picked_twice(order, loose_in(windows), q);
        assert forall|i: int| 0 <= i < b.len() implies !q(#[trigger] b[i]) by {
            assert(b.contains(b[i]));
        }
        lemma_filter_none(b, q);
        assert(a.filter(q) + Seq::<u64>::empty() =~= a.filter(q));
    }
}

/// Raising or lowering one window keeps the others in their order: those that
/// stay on top among each other, and the rest among each other. No window
/// changes, and the focus stays.
pub proof fn lemma_restacking_keeps_others(s: State, id: u64, pinned: bool)
    requires
        s.wf(),
        s.has(id),
    ensures
        ({
            let q = others_alike(s.windows, id, pinned);
            &&& s.raised(id).order.filter(q) == s.order.filter(q)
            &&& s.lowered(id).order.filter(q) == s.order.filter(q)
            &&& s.raised(id) == (State { order: s.raised(id).order, ..s })
            &&& s.lowered(id) == (State { order: s.lowered(id).order, ..s })
        }),
{
    reveal(windows_ok);
    let q = others_alike(s.windows, id, pinned);
    assert(s.order.contains(id));
    lemma_position(s.order, id);
    let rest = without_first(s.order, id);
    lemma_picked_without(s.order, position_in(s.order, id), q);
    lemma_filter_push(rest, id, q);
    lemma_restacked_alike(s.windows, rest.push(id), id, pinned);
    Seq::filter_distributes_over_add(seq![id], rest, q);
    assert(Seq::<u64>::empty().push(id) =~= seq![id]);
    lemma_filter_push(Seq::<u64>::empty(), id, q);
    lemma_filter_empty(q);
    assert(Seq::<u64>::empty() + rest.filter(q) =~= rest.filter(q));
    lemma_restacked_alike(s.windows, seq![id] + rest, id, pinned);
}

/// A lowered window is under all windows that do not stay on top, unless it is
/// one that does.
pub proof fn lemma_lowered_is_lowest(s: State, id: u64)
    requires
        s.wf(),
        s.has(id),
        !s.windows[id].always_on_top,
    ensures
        s.lowered(id).order.len() > 0,
        s.lowered(id).order[0] == id,
{
    let rest = without_first(s.order, id);
    let p = loose_in(s.windows);
    Seq::filter_distributes_over_add(seq![id], rest, p);
    assert(Seq::<u64>::empty().push(id) =~= seq![id]);
    lemma_filter_push(Seq::<u64>::empty(), id, p);
    lemma_filter_empty(p);
    assert((seq![id] + rest).filter(p)[0] == id);
}

/// A raised window has every window that is drawn like it under it: nothing
/// but windows that stay on top is above it.
pub proof fn lemma_raised_is_above(s: State, id: u64, k: int)
    requires
        s.wf(),
        s.has(id),
        0 <= k < s.raised(id).order.len(),
        forall|j: int| k <= j < s.raised(id).order.len() ==> #[trigger] s.raised(id).order[j] != id,
    ensures
        s.windows[s.raised(id).order[k]].always_on_top,
        !s.windows[id].always_on_top,
{
    let base = without_first(s.order, id).push(id);
    let p = loose_in(s.windows);
    let q = pinned_in(s.windows);
    lemma_filter_push(without_first(s.order, id), id, p);
    lemma_filter_push(without_first(s.order, id), id, q);
    lemma_filter(base, p);
    lemma_filter(base, q);
    let a = base.filter(p);
    let b = base.filter(q);
    let order = s.raised(id).order;
    assert(order == a + b);
    if s.windows[id].always_on_top {
        assert(b.last() == id);
        assert(order[order.len() - 1] == id);
    } else {
        assert(a.last() == id);
        assert(order[a.len() - 1] == id);
        assert(order[k] == b[k - a.len()]);
        assert(b.contains(b[k - a.len()]));
    }
}

// ---- On top of a workspace -------------------------------------------------------

/// The topmost window of a workspace is on it and not minimized, and above it in
/// the stack is no other such window. Where there is none, no window of the
/// workspace is not minimized.
pub proof fn lemma_top_is_highest(s: State, workspace: usize) -> (k: int)
    ensures
        match s.top_of(workspace) {
            Some(id) => {
                &&& 0 <= k < s.order.len() && s.order[k] == id
                &&& s.windows[id].workspace == workspace && !s.windows[id].minimized
                &&& forall|j: int|
                    k < j < s.order.len() ==> s.windows[#[trigger] s.order[j]].workspace != workspace
                        || s.windows[s.order[j]].minimized
            },
            None => forall|j: int|
                0 <= j < s.order.len() ==> s.windows[#[trigger] s.order[j]].workspace != workspace
                    || s.windows[s.order[j]].minimized,
        },
{
    let p = shown_in(s.windows, workspace);
    let back = s.order.reverse();
    let n = s.order.len();
    lemma_filter(back, p);
    if back.filter(p).len() > 0 {
        let i = lemma_first_picked(back, p);
        let k = n - 1 - i;
        assert forall|j: int| k < j < n implies s.windows[#[trigger] s.order[j]].workspace != workspace
            || s.windows[s.order[j]].minimized by {
            assert(back[n - 1 - j] == s.order[j]);
        }
        k
    } else {
        assert forall|j: int| 0 <= j < n implies s.windows[#[trigger] s.order[j]].workspace != workspace
            || s.windows[s.order[j]].minimized by {
            assert(back[n - 1 - j] == s.order[j]);
            if p(s.order[j]) {
                assert(back.contains(back[n - 1 - j]));
                assert(back.filter(p).contains(s.order[j]));
            }
        }
        0
    }
}

/// The windows of a workspace from the front are those of it that are not
/// minimized, and a window that comes first is higher in the stack.
pub proof fn lemma_front_first(s: State, workspace: usize, i: int, j: int) -> (places: (int, int))
    requires
        0 <= i < j < s.front_to_back(workspace).len(),
    ensures
        s.order.len() > places.0 > places.1 >= 0,
        s.order[places.0] == s.front_to_back(workspace)[i],
        s.order[places.1] == s.front_to_back(workspace)[j],
        s.windows[s.order[places.0]].workspace == workspace && !s.windows[s.order[places.0]].minimized,
        s.windows[s.order[places.1]].workspace == workspace && !s.windows[s.order[places.1]].minimized,
{
    let p = shown_in(s.windows, workspace);
    let back = s.order.reverse();
    let n = s.order.len();
    let (a, b) = lemma_picked_in_order(back, p, i, j);
    lemma_filter(back, p);
    let f = back.filter(p);
    assert(f.contains(f[i]) && f.contains(f[j]));
    (n - 1 - a, n - 1 - b)
}

// ---- Focus ---------------------------------------------------------------------

/// Going forward leads to the window after the focused one in the order they
/// were added, and from the last to the first; going back the other way round.
/// Without a focused window on the workspace it starts at the first.
pub proof fn lemma_focus_goes_round(s: State, p: int)
    requires
        s.wf(),
        s.ring().len() > 0,
        s.focused matches Some(f) ==> (0 <= p < s.ring().len() && s.ring()[p] == f) || !s.ring().contains(f),
    ensures
        ({
            let ids = s.ring();
            let n = ids.len();
            let within = s.focused matches Some(f) && ids.contains(f);
            &&& s.cycled(true).focused == Some(ids[if !within || p + 1 == n { 0 } else { p + 1 }])
            &&& s.cycled(false).focused == Some(ids[if !within { 0 } else if p == 0 { n - 1 } else { p - 1 }])
        }),
{
    lemma_ring(s);
    let ids = s.ring();
    let n = ids.len() as int;
    let a = s.next_in_ring(true);
    let b = s.next_in_ring(false);
    if let Some(f) = s.focused {
        lemma_position(ids, f);
        if ids.contains(f) {
            assert(position_in(ids, f) == p);
            assert((p + 1) % n == (if p + 1 < n { p + 1 } else { 0 })) by (nonlinear_arith)
                requires
                    0 <= p < n,
            ;
            assert((p + n - 1) % n == (if p > 0 { p - 1 } else { n - 1 })) by (nonlinear_arith)
                requires
                    0 <= p < n,
            ;
        }
    }
    assert(ids.contains(ids[a]) && ids.contains(ids[b]));
    lemma_focus_lands(s, ids[a]);
    lemma_focus_lands(s, ids[b]);
}

/// A window that is focused has the focus.
proof fn lemma_focus_lands(s: State, id: u64)
    requires
        s.has(id),
    ensures
        s.focused_on(id).focused == Some(id),
{
    let a = s.marked_focused(id);
    assert(a.focus_is_on(a.windows[id].workspace));
}

/// The windows that the focus goes round come in the order they were added.
pub proof fn lemma_ring_in_order(s: State, i: int, j: int) -> (places: (int, int))
    requires
        0 <= i < j < s.ring().len(),
    ensures
        0 <= places.0 < places.1 < s.created.len(),
        s.created[places.0] == s.ring()[i],
        s.created[places.1] == s.ring()[j],
{
    lemma_picked_in_order(s.created, shown_in(s.windows, s.current), i, j)
}

/// Focusing a window takes it out of the minimized ones and changes no other
/// field of it, and no other window.
pub proof fn lemma_focus_changes_little(s: State, id: u64, other: u64)
    requires
        s.has(id),
        other != id,
    ensures
        ({
            let t = s.focused_on(id);
            &&& t.windows[id] == (Window { minimized: false, ..s.windows[id] })
            &&& t.has(other) == s.has(other)
            &&& s.has(other) ==> t.windows[other] == s.windows[other]
            &&& t.created == s.created && t.monitors == s.monitors && t.workspaces == s.workspaces
            &&& t.settings == s.settings && t.rules == s.rules && t.drag == s.drag && t.resize == s.resize
        }),
{
}

/// A window that does not exist cannot be focused.
pub proof fn lemma_focus_of_none(s: State, id: u64)
    requires
        !s.has(id),
    ensures
        s.focused_on(id) == s,
{
}

// ---- Workspaces ------------------------------------------------------------------

/// Switching to another workspace makes it the current one, and the one before
/// the previous. The focus stays on a window that is there; otherwise it goes to
/// the topmost window there, or to none. No window changes, nor does the stack.
pub proof fn lemma_switched_to(s: State, id: usize)
    requires
        s.workspace_exists(id),
        id != s.current,
    ensures
        ({
            let t = s.switched(id);
            let stays = s.focused matches Some(f) && s.has(f) && s.windows[f].workspace == id;
            &&& t.current == id && t.previous == s.current
            &&& t.focused == (if stays { s.focused } else { t.top_of(id) })
            &&& t == (State { current: id, previous: s.current, focused: t.focused, ..s })
        }),
{
}

/// Asking for the current workspace leads to the one before where switching
/// goes back and forth, if that still exists, and nowhere otherwise. Asking for
/// one that does not exist leads nowhere.
pub proof fn lemma_switched_here(s: State, id: usize)
    ensures
        id == s.current && !s.settings.auto_back_and_forth ==> s.switched(id) == s,
        id == s.current && s.settings.auto_back_and_forth && s.workspace_exists(s.previous) && s.previous != s.current
            ==> s.switched(id).current == s.previous,
        id != s.current && !s.workspace_exists(id) ==> s.switched(id) == s,
{
}

/// Switching one monitor to another workspace changes what that monitor shows,
/// and nothing that another shows.
pub proof fn lemma_switched_one_monitor(s: State, id: usize, monitor: u32, other: u32)
    requires
        s.settings.per_monitor_workspaces,
        s.workspace_exists(id),
        id != s.shown_on(monitor),
        other != monitor,
    ensures
        ({
            let t = s.switched_on(id, monitor);
            let stays = s.focused matches Some(f) && s.has(f) && s.windows[f].workspace == id;
            &&& t.shown_on(monitor) == id
            &&& t.shown_on(other) == s.shown_on(other)
            &&& t.current == s.current && t.previous == s.shown_on(monitor)
            &&& t.focused == (if stays { s.focused } else { t.top_of(id) })
            &&& t.windows == s.windows && t.order == s.order && t.workspaces == s.workspaces
        }),
{
}

/// A monitor shows the workspace that it was switched to where monitors have
/// workspaces of their own, and the current one otherwise.
pub proof fn lemma_shown_on(s: State, monitor: u32)
    ensures
        !s.settings.per_monitor_workspaces ==> s.shown_on(monitor) == s.current,
        s.settings.per_monitor_workspaces && !s.monitor_workspaces.contains_key(monitor) ==> s.shown_on(monitor)
            == s.current,
        s.settings.per_monitor_workspaces && s.monitor_workspaces.contains_key(monitor) ==> s.shown_on(monitor)
            == s.monitor_workspaces[monitor],
{
}

/// The windows of a workspace that is removed all go to the first of the others,
/// and so does the user who was on it. The windows of other workspaces stay, as
/// does everything else of the windows. The last workspace cannot be removed.
pub proof fn lemma_removed_workspace(s: State, id: usize, w: u64)
    requires
        s.wf(),
        s.has(w),
    ensures
        s.workspaces.len() <= 1 ==> s.without_workspace(id) == s,
        s.workspaces.len() > 1 ==> {
            let t = s.without_workspace(id);
            let to = if s.workspaces[0].id != id { s.workspaces[0].id } else { s.workspaces[1].id };
            &&& t.windows[w] == (Window {
                workspace: if s.windows[w].workspace == id { to } else { s.windows[w].workspace },
                ..s.windows[w]
            })
            &&& t.current == (if s.current == id { to } else { s.current })
            &&& t.order == s.order && t.focused == s.focused && t.created == s.created
        },
{
    reveal(workspaces_ok);
    if s.workspaces.len() > 1 {
        reveal_with_fuel(first_other, 2);
        assert(s.workspaces[0].id != s.workspaces[1].id);
        let rest = s.workspaces.skip(1);
        assert(rest[0] == s.workspaces[1]);
    }
}

/// A window that is moved to a workspace is on it, and changes in nothing else.
pub proof fn lemma_moved_window(s: State, id: u64, workspace: usize)
    ensures
        s.has(id) ==> s.moved_to_workspace(id, workspace) == s.with_window(
            id,
            Window { workspace, ..s.windows[id] },
        ),
        !s.has(id) ==> s.moved_to_workspace(id, workspace) == s,
{
}

// ---- Leaving -------------------------------------------------------------------

/// A window that is removed leaves the others as they are and in their order.
/// Unless it covered its monitor, its app's next window will have its geometry.
/// The focus stays if another window has it.
pub proof fn lemma_window_leaves(s: State, id: u64, other: u64)
    requires
        s.wf(),
        s.has(id),
        other != id,
        s.focused != Some(id),
    ensures
        ({
            let t = s.removed(id);
            let w = s.windows[id];
            &&& !t.has(id) && t.has(other) == s.has(other)
            &&& s.has(other) ==> t.windows[other] == s.windows[other]
            &&& t.focused == s.focused && t.current == s.current
            &&& !t.order.contains(id) && !t.created.contains(id)
            &&& t.order.contains(other) == s.order.contains(other)
            &&& t.created.contains(other) == s.created.contains(other)
            &&& !w.maximized && !w.fullscreen && w.app_id@.len() > 0 ==> t.remembered == s.remembered.insert(
                w.app_id@,
                (w.geometry.x, w.geometry.y, w.geometry.width, w.geometry.height),
            )
            &&& w.maximized || w.fullscreen || w.app_id@.len() == 0 ==> t.remembered == s.remembered
        }),
{
    lemma_without(s.order, id);
    lemma_without(s.created, id);
}

/// When the focused window is removed, the focus goes to the topmost window that
/// is left on its workspace. Where none is left there it goes nowhere, unless
/// the settings let it follow to another workspace: then to the topmost of all.
pub proof fn lemma_focus_after_leaving(s: State, id: u64)
    requires
        s.wf(),
        s.focused == Some(id),
    ensures
        ({
            let t = s.removed(id);
            let left = s.without_window(id);
            let workspace = s.windows[id].workspace;
            &&& left.order == without(s.order, id)
            &&& left.windows == s.windows.remove(id)
            &&& left.top_of(workspace) is Some ==> t.focused == left.top_of(workspace) && t.windows == left.windows
                && t.current == s.current
            &&& left.top_of(workspace) is None && !s.settings.close_focus_follows_workspace ==> t.focused is None
                && t.current == s.current && t.windows == left.windows
            &&& left.top_of(workspace) is None && s.settings.close_focus_follows_workspace && left.order.len() > 0
                ==> t.focused == Some(left.order[left.order.len() - 1])
        }),
{
    reveal(windows_ok);
    lemma_without_window_wf(s, id);
    let left = s.without_window(id);
    if left.order.len() > 0 {
        assert(left.order.contains(left.order.last()));
        lemma_focus_lands(left, left.order.last());
    }
}

// ---- The scratchpad ----------------------------------------------------------------

/// The window that the scratchpad shows next is the hidden one of it with the
/// highest id. `id` is any window.
pub proof fn lemma_newest_of_scratchpad(s: State, id: u64)
    requires
        s.wf(),
    ensures
        match s.newest_hidden() {
            Some(n) => {
                &&& s.has(n) && s.windows[n].scratchpad && s.windows[n].minimized
                &&& s.has(id) && s.windows[id].scratchpad && s.windows[id].minimized ==> id <= n
            },
            None => !(s.has(id) && s.windows[id].scratchpad && s.windows[id].minimized),
        },
{
    reveal(windows_ok);
    let p = hidden_in(s.windows);
    let ids = s.created.filter(p);
    lemma_filter(s.created, p);
    lemma_highest(ids);
    if ids.contains(id) {
        let k = choose|k: int| 0 <= k < ids.len() && ids[k] == id;
        assert(ids[k] <= s.newest_hidden()->Some_0);
    }
}

/// Windows that show are those on the workspace of their monitor that are not
/// minimized.
pub proof fn lemma_on_show(s: State, id: u64)
    ensures
        (s.on_show())(id) <==> !s.windows[id].minimized && s.windows[id].workspace == (if s.settings.per_monitor_workspaces
            && s.monitor_workspaces.contains_key(s.windows[id].monitor) {
            s.monitor_workspaces[s.windows[id].monitor]
        } else {
            s.current
        }),
{
}

} // verus!
