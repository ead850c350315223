//! Window registration and removal, lookup, and stacking order.
use super::ids::{lemma_filter_empty, lemma_filter_push, without_first, without_first_id, without_id};
use super::model::effects::lemma_rule_maximizes_new_window;
use super::model::newcomer::{
    acted, asked, dressed, is_known, lemma_joined_before_wf, lemma_without_window_wf, ruled, Opening,
};
use super::model::{
    geometries, lemma_moved_ok, lemma_restack_wf, lemma_top_of, lemma_with_window_wf, lists, loose_in, pinned_in, placed_in,
    restacked,
};
use super::monitors::{monitor_covering, monitor_with_id};
use super::store::Remembered;
use super::{windows_ok, WindowManager};
use crate::geometry::Rect;
use crate::ieee::Float32;
use crate::monitor::Monitor;
use crate::placement::{centered_in, SmartPlacement};
use crate::rules::{WindowRule, WindowRuleActions};
use crate::text::same;
use crate::theme::ThemeConfig;
use crate::window::{Window, WindowId, OPAQUE};
use crate::workspace::WorkspaceId;
use vstd::prelude::*;

verus! {

impl WindowManager {
    /// Moves every window that stays on top to the top of the stack, keeping
    /// their order. Done after each change of the stack, so that nothing that
    /// reads the stacking order has to look for such windows.
    fn restack_pinned(&mut self)
        requires
            old(self).wf(),
        ensures
            final(self)@ == old(self)@.restack(),
            final(self).wf(),
    {
        let order: Vec<u64> = self.restacked_order();
        self.put_order(order);
        proof {
            lemma_restack_wf(old(self)@);
        }
    }

    fn restacked_order(&self) -> (r: Vec<u64>)
        requires
            self.wf(),
        ensures
            r@ == restacked(self@.windows, self@.order),
    {
        let order: &Vec<u64> = self.order_ids();
        let mut rest: Vec<u64> = Vec::new();
        let mut pinned: Vec<u64> = Vec::new();
        let ghost loose = loose_in(self@.windows);
        let ghost top = pinned_in(self@.windows);
        let mut i: usize = 0;
        proof {
            self@.lemma_created_exist();
            lemma_filter_empty(loose);
            lemma_filter_empty(top);
            assert(order@.take(0) =~= Seq::<u64>::empty());
        }
        while i < order.len()
            invariant
                i <= order.len(),
                order@ == self@.order,
                forall|k: int| 0 <= k < order.len() ==> self@.has(#[trigger] order[k]),
                loose == loose_in(self@.windows),
                top == pinned_in(self@.windows),
                rest@ == order@.take(i as int).filter(loose),
                pinned@ == order@.take(i as int).filter(top),
            decreases order.len() - i,
        {
            let id: u64 = order[i];
            proof {
                assert(order@.take(i + 1) =~= order@.take(i as int).push(id));
                lemma_filter_push(order@.take(i as int), id, loose);
                lemma_filter_push(order@.take(i as int), id, top);
            }
            if self.is_always_on_top(id) {
                pinned.push(id);
            } else {
                rest.push(id);
            }
            i = i + 1;
        }
        assert(order@.take(order.len() as int) =~= order@);
        rest.append(&mut pinned);
        rest
    }

    /// Brings a window to the top of the stack, under those that stay on top.
    pub fn raise_window(&mut self, id: WindowId)
        requires
            old(self).wf(),
        ensures
            final(self)@ == old(self)@.raised(id),
            final(self).wf(),
    {
        if self.window(id).is_some() {
            proof {
                assert(self@.order.contains(id)) by {
                    reveal(windows_ok);
                }
            }
            let mut order: Vec<u64> = without_first_id(self.order_ids(), id);
            order.push(id);
            self.put_order(order);
            proof {
                lemma_moved_ok(old(self)@, id);
            }
        }
        self.restack_pinned();
    }

    /// Sends a window to the back of the stack. The focus stays where it is.
    pub fn lower_window(&mut self, id: WindowId)
        requires
            old(self).wf(),
        ensures
            final(self)@ == old(self)@.lowered(id),
            final(self).wf(),
    {
        if self.window(id).is_some() {
            proof {
                assert(self@.order.contains(id)) by {
                    reveal(windows_ok);
                }
            }
            let mut order: Vec<u64> = vec![id];
            let mut rest: Vec<u64> = without_first_id(self.order_ids(), id);
            order.append(&mut rest);
            assert(order@ =~= seq![id] + without_first(old(self)@.order, id));
            self.put_order(order);
            proof {
                lemma_moved_ok(old(self)@, id);
            }
        }
        self.restack_pinned();
    }

    /// Makes a window stay on top of others, or lets go of it.
    pub fn toggle_always_on_top(&mut self, id: WindowId)
        requires
            old(self).wf(),
        ensures
            final(self)@ == old(self)@.pin_toggled(id),
            final(self).wf(),
    {
        if let Some(w) = self.window_mut(id) {
            w.always_on_top = !w.always_on_top;
        }
        self.restack_pinned();
    }

    pub fn is_always_on_top(&self, id: WindowId) -> (r: bool)
        ensures
            r == (self@.has(id) && self@.windows[id].always_on_top),
    {
        match self.window(id) {
            Some(w) => w.always_on_top,
            None => false,
        }
    }

    /// The windows in the order in which they were added.
    pub fn windows(&self) -> (r: Vec<&Window>)
        requires
            self.wf(),
        ensures
            lists(r@, self@.created, self@.windows),
    {
        self.look_up(self.created_ids())
    }

    /// The windows in stacking order, the topmost last.
    pub fn stacking_order(&self) -> (r: Vec<&Window>)
        requires
            self.wf(),
        ensures
            lists(r@, self@.order, self@.windows),
    {
        self.look_up(self.order_ids())
    }

    /// The windows with the ids.
    pub(super) fn look_up(&self, ids: &Vec<u64>) -> (r: Vec<&Window>)
        requires
            forall|k: int| 0 <= k < ids.len() ==> self@.has(#[trigger] ids[k]) || self@.created.contains(ids[k])
                || self@.order.contains(ids[k]),
            self.wf(),
        ensures
            lists(r@, ids@, self@.windows),
    {
        let mut r: Vec<&Window> = Vec::new();
        let mut i: usize = 0;
        while i < ids.len()
            invariant
                i <= ids.len(),
                r.len() == i,
                forall|k: int| 0 <= k < ids.len() ==> self@.has(#[trigger] ids[k]) || self@.created.contains(ids[k])
                    || self@.order.contains(ids[k]),
                self.wf(),
                forall|k: int| 0 <= k < i ==> *#[trigger] r[k] == self@.windows[ids[k]],
            decreases ids.len() - i,
        {
            let id: u64 = ids[i];
            assert(self@.has(id)) by {
                reveal(windows_ok);
            }
            match self.window(id) {
                Some(w) => {
                    r.push(w);
                },
                None => {},
            }
            i = i + 1;
        }
        r
    }
}

// ---- New windows ------------------------------------------------------------------

/// The window with the theme's defaults.
fn dress(window: Window, theme: &ThemeConfig) -> (r: Window)
    ensures
        r == dressed(window, *theme),
{
    let mut w = window;
    w.border_color = theme.default_border_color;
    w.border_width = theme.default_border_width;
    w.corner_radius = theme.default_corner_radius;
    w.decorated = theme.default_decorated;
    w
}

/// The window with what a rule asks of its looks and behaviour.
fn act(window: Window, a: &WindowRuleActions) -> (r: Window)
    ensures
        r == acted(window, *a),
{
    Window {
        floating: pick(a.floating, window.floating),
        decorated: pick(a.decorated, window.decorated),
        border_color: pick(a.border_color, window.border_color),
        border_width: pick(a.border_width, window.border_width),
        corner_radius: pick(a.corner_radius, window.corner_radius),
        always_on_top: pick(a.pinned, window.always_on_top),
        opacity: match a.opacity {
            Some(v) => v.clamped(Float32 { bits: 0 }, Float32 { bits: OPAQUE }),
            None => window.opacity,
        },
        resize_margin: match a.resize_margin {
            Some(m) => Some(m),
            None => window.resize_margin,
        },
        aspect_ratio: match a.aspect_ratio {
            Some(r) => Some(r),
            None => window.aspect_ratio,
        },
        ..window
    }
}

/// `new`, or `old` where nothing is asked for.
fn pick<T>(new: Option<T>, old: T) -> (r: T)
    ensures
        r == asked(new, old),
{
    match new {
        Some(v) => v,
        None => old,
    }
}

/// What the first rule that matches the window asks for.
fn first_rule(rules: &Vec<WindowRule>, w: &Window) -> (r: Option<WindowRuleActions>)
    ensures
        r == ruled(rules@, *w),
{
    let mut i: usize = 0;
    assert(rules@.skip(0) =~= rules@);
    while i < rules.len()
        invariant
            i <= rules.len(),
            ruled(rules@, *w) == ruled(rules@.skip(i as int), *w),
        decreases rules.len() - i,
    {
        proof {
            assert(rules@.skip(i as int)[0] == rules@[i as int]);
            assert(rules@.skip(i as int).skip(1) =~= rules@.skip(i + 1));
        }
        if rules[i].matcher.matches(w) {
            return Some(rules[i].actions);
        }
        i = i + 1;
    }
    None
}

/// Whether the window has said what it is.
fn says_what_it_is(w: &Window) -> (r: bool)
    ensures
        r == is_known(*w),
{
    !(w.title.as_str().is_empty() && w.app_id.as_str().is_empty())
}

/// A window that has gone through the rules.
struct Candidate {
    window: Window,
    /// The geometry that a rule asks for.
    geometry: Option<Rect>,
    maximize: bool,
}

impl WindowManager {
    /// Applies the theme and the rules to a new window.
    fn prepare(&self, window: Window) -> (r: Candidate)
        ensures
            r.window == self@.prepared(window),
            r.geometry == (match self@.rule_for(window) {
                Some(a) => a.geometry,
                None => None,
            }),
            r.maximize == self@.opens_maximized(window),
    {
        let w: Window = dress(window, &self.theme_config());
        let actions: Option<WindowRuleActions> = first_rule(self.rules(), &w);
        let known: bool = says_what_it_is(&w);
        match actions {
            Some(a) => {
                let mut w: Window = act(w, &a);
                w.rules_applied = true;
                w.workspace = match a.workspace {
                    Some(ws) => ws,
                    None => self.current_workspace(),
                };
                let maximize: bool = match a.maximized {
                    Some(m) => m,
                    None => self.is_phone() && match a.floating {
                        Some(f) => !f,
                        None => true,
                    },
                };
                Candidate { window: w, geometry: a.geometry, maximize }
            },
            None => {
                let mut w: Window = w;
                w.rules_applied = known;
                w.workspace = self.current_workspace();
                Candidate { window: w, geometry: None, maximize: self.is_phone() }
            },
        }
    }

    /// The monitor that a new window belongs on.
    fn monitor_for_new(&self) -> (r: Option<&Monitor>)
        requires
            self.wf(),
        ensures
            match r {
                Some(m) => self@.target_monitor() == Some(*m) && m.fits(),
                None => self@.target_monitor() is None,
            },
    {
        proof {
            self@.lemma_target_fits();
        }
        if let Some(id) = self.pointer_monitor() {
            if let Some(m) = monitor_with_id(self.monitors(), id) {
                return Some(m);
            }
        }
        if let Some(w) = self.focused_window() {
            if let Some(m) = monitor_with_id(self.monitors(), w.monitor) {
                return Some(m);
            }
        }
        self.primary_monitor()
    }

    /// Whether the layout of a workspace places the windows on it.
    fn tiles(&self, workspace: WorkspaceId) -> (r: bool)
        requires
            self.wf(),
        ensures
            r == self@.tiles(workspace),
    {
        match self.layout_name(workspace) {
            Some(l) => same(l, "tiling"),
            None => false,
        }
    }

    /// The geometries of the windows on a workspace.
    fn occupied(&self, workspace: WorkspaceId) -> (r: Vec<Rect>)
        requires
            self.wf(),
        ensures
            r@ == self@.occupied(workspace),
    {
        let ids: &Vec<u64> = self.created_ids();
        let ghost p = placed_in(self@.windows, workspace);
        let mut r: Vec<Rect> = Vec::new();
        let mut i: usize = 0;
        proof {
            self@.lemma_created_exist();
            lemma_filter_empty(p);
            assert(ids@.take(0) =~= Seq::<u64>::empty());
            assert(r@ =~= geometries(ids@.take(0).filter(p), self@.windows));
        }
        while i < ids.len()
            invariant
                i <= ids.len(),
                ids@ == self@.created,
                forall|k: int| 0 <= k < ids.len() ==> self@.has(#[trigger] ids[k]),
                p == placed_in(self@.windows, workspace),
                r@ == geometries(ids@.take(i as int).filter(p), self@.windows),
            decreases ids.len() - i,
        {
            let id: u64 = ids[i];
            let ghost f = ids@.take(i as int).filter(p);
            proof {
                assert(ids@.take(i + 1) =~= ids@.take(i as int).push(id));
                lemma_filter_push(ids@.take(i as int), id, p);
                assert(geometries(f.push(id), self@.windows) =~= geometries(f, self@.windows).push(
                    self@.windows[id].geometry,
                ));
            }
            match self.window(id) {
                Some(w) => {
                    if w.workspace == workspace {
                        r.push(w.geometry);
                    }
                },
                None => {},
            }
            i = i + 1;
        }
        assert(ids@.take(ids.len() as int) =~= ids@);
        r
    }

    /// The position and size that the window opens with, if its app's are
    /// known.
    fn recall(&self, w: &Window) -> (r: Option<Remembered>)
        requires
            self.wf(),
        ensures
            r == self@.recalled(*w),
    {
        if w.app_id.as_str().is_empty() || w.is_dialog {
            None
        } else {
            self.remembered_geometry(w.app_id.as_str())
        }
    }

    /// Where a new window of a size goes on a monitor.
    fn find_place(&self, w: &Window, m: &Monitor, size: (u32, u32)) -> (r: Rect)
        requires
            self.wf(),
            m.fits(),
            self@.crowded(*w) ==> self@.settings.placement.max_grid >= 1,
        ensures
            r == self@.opening_place(*w, *m, size),
    {
        if self.tiles(w.workspace) {
            Rect::new(w.geometry.x, w.geometry.y, size.0, size.1)
        } else if w.is_dialog {
            centered_in(m.geometry, size.0, size.1)
        } else {
            let taken: Vec<Rect> = self.occupied(w.workspace);
            SmartPlacement::place(m, taken.as_slice(), size, &self.placement_config(), self.cascade_step())
        }
    }

    /// How a new window opens.
    fn find_opening(&self, w: &Window) -> (r: Opening)
        requires
            self.wf(),
            self@.seeks_place(*w) ==> self@.settings.placement.max_grid >= 1,
        ensures
            r == self@.opening(*w),
    {
        let m: &Monitor = match self.monitor_for_new() {
            Some(m) => m,
            None => {
                return Opening { geometry: w.geometry, monitor: w.monitor, provisional: false, steps: false };
            },
        };
        let steps: bool = !self.tiles(w.workspace) && !w.is_dialog;
        match self.recall(w) {
            Some(r) => match monitor_covering(self.monitors(), r.0, r.1) {
                Some(home) => Opening {
                    geometry: Rect::new(r.0, r.1, r.2, r.3),
                    monitor: home.id,
                    provisional: false,
                    steps: false,
                },
                None => Opening {
                    geometry: self.find_place(w, m, (r.2, r.3)),
                    monitor: m.id,
                    provisional: false,
                    steps,
                },
            },
            None => Opening {
                geometry: self.find_place(w, m, (w.geometry.width, w.geometry.height)),
                monitor: m.id,
                provisional: !self.tiles(w.workspace),
                steps,
            },
        }
    }

    /// The step of the cascade after a window opened.
    fn next_step(&self, o: &Opening) -> (r: u32)
        ensures
            r == (if !o.steps {
                self@.cascade_step
            } else if self@.cascade_step == u32::MAX {
                0u32
            } else {
                (self@.cascade_step + 1) as u32
            }),
    {
        let step: u32 = self.cascade_step();
        if !o.steps {
            step
        } else if step == u32::MAX {
            0
        } else {
            step + 1
        }
    }

    /// Puts a window in, focused and on top of the stack.
    fn join(&mut self, id: WindowId, w: Window, step: u32)
        requires
            old(self).wf(),
        ensures
            final(self)@ == old(self)@.joined(id, w, step),
            final(self).wf(),
    {
        let ghost s = self@;
        let mut order: Vec<u64> = self.order_ids().clone();
        order.push(id);
        let mut created: Vec<u64> = self.created_ids().clone();
        if self.window(id).is_none() {
            created.push(id);
        }
        self.put_window(id, w);
        self.put_created(created);
        self.put_order(order);
        self.put_focused(Some(id));
        self.put_cascade_step(step);
        proof {
            lemma_joined_before_wf(s, id, w, step);
        }
        self.restack_pinned();
    }

    /// Adds a window that a backend has created, and focuses it. The theme and
    /// the first rule that matches shape it. Unless the workspace is tiled, it
    /// opens where the app's last window was, or in a free place.
    pub fn add_window(&mut self, window: Window) -> (r: WindowId)
        requires
            old(self).wf(),
            old(self)@.seeks_place(old(self)@.prepared(window)) ==> old(self)@.settings.placement.max_grid >= 1,
        ensures
            r == window.id,
            final(self)@ == old(self)@.added(window),
            final(self).wf(),
            // Whether it opens maximized is what the first rule that matches
            // says, if that says anything.
            forall|i: int|
                0 <= i < old(self)@.rules.len() && (#[trigger] old(self)@.rules[i]).matcher.covers(window) && (forall|
                    j: int,
                |
                    0 <= j < i ==> !(#[trigger] old(self)@.rules[j]).matcher.covers(window)) && !window.maximized
                    && old(self)@.monitors.len() > 0 ==> {
                    let w = final(self)@.windows[window.id];
                    &&& old(self)@.rules[i].actions.maximized == Some(true) ==> w.maximized && (old(self)@.monitor_for(
                        w.monitor,
                    ) matches Some(m) && w.geometry == m.maximize_geometry)
                    &&& old(self)@.rules[i].actions.maximized == Some(false) ==> !w.maximized
                },
    {
        proof {
            let s = self@;
            if !window.maximized && s.monitors.len() > 0 {
                assert forall|i: int|
                    0 <= i < s.rules.len() && (#[trigger] s.rules[i]).matcher.covers(window) && (forall|j: int|
                        0 <= j < i ==> !(#[trigger] s.rules[j]).matcher.covers(window)) implies {
                    let w = s.added(window).windows[window.id];
                    &&& s.rules[i].actions.maximized == Some(true) ==> w.maximized && (s.monitor_for(w.monitor) matches Some(
                        m,
                    ) && w.geometry == m.maximize_geometry)
                    &&& s.rules[i].actions.maximized == Some(false) ==> !w.maximized
                } by {
                    lemma_rule_maximizes_new_window(s, window, i);
                }
            }
        }
        let id: u64 = window.id;
        let (w, step, maximize): (Window, u32, bool) = self.shape(window);
        self.join(id, w, step);
        if maximize {
            self.toggle_maximize(id);
        }
        id
    }

    /// A new window as it is added, the step of the cascade after it, and
    /// whether it opens maximized.
    fn shape(&self, window: Window) -> (r: (Window, u32, bool))
        requires
            self.wf(),
            self@.seeks_place(self@.prepared(window)) ==> self@.settings.placement.max_grid >= 1,
        ensures
            r.0 == self@.newcomer(window),
            r.1 == self@.step_after(self@.prepared(window)),
            r.2 == self@.opens_maximized(window),
    {
        let c: Candidate = self.prepare(window);
        let maximize: bool = c.maximize;
        let o: Opening = self.find_opening(&c.window);
        let step: u32 = self.next_step(&o);
        (finish(c, &o), step, maximize)
    }
}

/// The window as it opens, or at the geometry that a rule asks for. A size that
/// somebody chose is not provisional.
fn finish(c: Candidate, o: &Opening) -> (r: Window)
    ensures
        r == (Window {
            geometry: asked(c.geometry, o.geometry),
            monitor: o.monitor,
            size_is_provisional: o.provisional && c.geometry is None && !c.maximize,
            ..c.window
        }),
{
    Window {
        geometry: pick(c.geometry, o.geometry),
        monitor: o.monitor,
        size_is_provisional: o.provisional && c.geometry.is_none() && !c.maximize,
        ..c.window
    }
}

/// The window after a rule that matched late.
fn act_late(window: Window, a: &WindowRuleActions) -> (r: Window)
    ensures
        r == (Window {
            rules_applied: true,
            geometry: asked(a.geometry, window.geometry),
            workspace: asked(a.workspace, window.workspace),
            ..acted(window, *a)
        }),
{
    let geometry: Rect = pick(a.geometry, window.geometry);
    let workspace: usize = pick(a.workspace, window.workspace);
    Window { rules_applied: true, geometry, workspace, ..act(window, a) }
}

impl WindowManager {
    /// Whether the rules have yet to be tried on a window that has said what
    /// it is.
    fn rules_pending(&self, id: WindowId) -> (r: bool)
        ensures
            r == self@.rules_pending(id),
    {
        match self.window(id) {
            Some(w) => !w.rules_applied && says_what_it_is(w),
            None => false,
        }
    }

    /// Tries the rules on a window that had not said what it is when it was
    /// added. Does so once. Returns whether a rule matched.
    pub fn reapply_rules_if_pending(&mut self, id: WindowId) -> (r: bool)
        requires
            old(self).wf(),
        ensures
            final(self)@ == old(self)@.rules_reapplied(id),
            r == (old(self)@.rules_pending(id) && ruled(old(self)@.rules, old(self)@.windows[id]) is Some),
            final(self).wf(),
    {
        if !self.rules_pending(id) {
            return false;
        }
        let w: Window = match self.window(id) {
            Some(w) => w.clone(),
            None => {
                return false;
            },
        };
        match first_rule(self.rules(), &w) {
            Some(a) => {
                self.replace(id, act_late(w, &a));
                self.restack_pinned();
                if let Some(true) = a.maximized {
                    self.toggle_maximize(id);
                }
                true
            },
            None => {
                self.replace(id, Window { rules_applied: true, ..w });
                false
            },
        }
    }

    /// Puts a window in place of the one with the id.
    fn replace(&mut self, id: WindowId, w: Window)
        requires
            old(self).wf(),
            old(self)@.has(id),
        ensures
            final(self)@ == old(self)@.with_window(id, w),
            final(self).wf(),
    {
        proof {
            lemma_with_window_wf(self@, id, w);
        }
        self.put_window(id, w);
    }

    /// Takes a window out of all lists.
    fn drop_out(&mut self, id: WindowId) -> (r: Option<Window>)
        requires
            old(self).wf(),
            old(self)@.has(id),
        ensures
            r == Some(old(self)@.windows[id]),
            final(self)@ == old(self)@.without_window(id),
            final(self).wf(),
    {
        let ghost s = self@;
        let covering: bool = match self.window(id) {
            Some(w) => w.maximized || w.fullscreen,
            None => true,
        };
        if !covering {
            self.remember(id);
        }
        let created: Vec<u64> = without_id(self.created_ids(), id);
        let order: Vec<u64> = without_id(self.order_ids(), id);
        let focused: Option<u64> = if self.focused_id() == Some(id) { None } else { self.focused_id() };
        self.put_created(created);
        self.put_order(order);
        self.put_focused(focused);
        proof {
            lemma_without_window_wf(s, id);
        }
        self.take_window(id)
    }

    /// Passes the focus on after the focused window of a workspace has gone.
    fn pass_focus_on(&mut self, workspace: WorkspaceId)
        requires
            old(self).wf(),
        ensures
            final(self)@ == old(self)@.focus_passed_on(workspace),
            final(self).wf(),
    {
        proof {
            lemma_top_of(self@, workspace);
        }
        let ids: Vec<u64> = self.window_ids_on_workspace_front_to_back(workspace);
        if ids.len() > 0 {
            proof {
                assert(windows_ok(self@.windows, self@.created, self@.order, Some(ids@[0]))) by {
                    reveal(windows_ok);
                }
            }
            self.put_focused(Some(ids[0]));
        } else if self.focus_follows_close() {
            let n: usize = self.order_ids().len();
            if n > 0 {
                let last: u64 = self.order_ids()[n - 1];
                self.focus_window(last);
            }
        }
    }

    /// Removes a window, and returns it. Where it was is where the app's next
    /// window opens. If it was focused, the topmost window left on its
    /// workspace is focused; the user is taken to another workspace only if
    /// `close_focus_follows_workspace` is set.
    pub fn remove_window(&mut self, id: WindowId) -> (r: Option<Window>)
        requires
            old(self).wf(),
        ensures
            r == (if old(self)@.has(id) { Some(old(self)@.windows[id]) } else { None }),
            final(self)@ == old(self)@.removed(id),
            final(self).wf(),
    {
        let workspace: usize = match self.window(id) {
            Some(w) => w.workspace,
            None => {
                return None;
            },
        };
        let was_focused: bool = self.focused_id() == Some(id);
        let r: Option<Window> = self.drop_out(id);
        if was_focused {
            self.pass_focus_on(workspace);
        }
        r
    }
}

} // verus!
