//! Workspaces: adding, renaming, removing and switching them, and the windows
//! on them.
use super::ids::{lemma_filter, lemma_filter_empty, lemma_filter_push, reversed};
use super::model::{
    each, first_other, lemma_pushed_workspace_wf, lemma_refocused_wf, lemma_relabelled_wf, lemma_without_workspace_wf,
    lists, moved_between, other_workspace, relaid, renamed, shown_in,
};
use super::{workspace_views, workspaces_ok, State, WindowManager, WorkspaceView};
use crate::monitor::{Monitor, MonitorId};
use crate::window::{Window, WindowId};
use crate::workspace::{Workspace, WorkspaceId};
use vstd::prelude::*;

verus! {

/// The workspaces but one.
fn workspaces_without(all: &[Workspace], id: WorkspaceId) -> (kept: Vec<Workspace>)
    ensures
        workspace_views(kept@) == workspace_views(all@).filter(other_workspace(id)),
{
    let mut kept: Vec<Workspace> = Vec::new();
    let mut i: usize = 0;
    let ghost views = workspace_views(all@);
    let ghost p = other_workspace(id);
    proof {
        reveal(Seq::filter);
        assert(views.take(0).filter(p) =~= Seq::<WorkspaceView>::empty());
        assert(workspace_views(kept@) =~= views.take(0).filter(p));
    }
    while i < all.len()
        invariant
            i <= all.len(),
            views == workspace_views(all@),
            p == other_workspace(id),
            workspace_views(kept@) == views.take(i as int).filter(p),
        decreases all.len() - i,
    {
        proof {
            reveal(Seq::filter);
            let w = all@[i as int];
            assert(views.take(i + 1).drop_last() =~= views.take(i as int));
            assert(views.take(i + 1).last() == w@);
            assert(workspace_views(kept@.push(w)) =~= workspace_views(kept@).push(w@));
        }
        if all[i].id != id {
            kept.push(all[i].clone());
        }
        i = i + 1;
    }
    assert(views.take(views.len() as int) =~= views);
    kept
}

impl WindowManager {
    /// The position of the workspace with the id.
    fn workspace_index(&self, id: WorkspaceId) -> (r: Option<usize>)
        ensures
            match r {
                Some(i) => i < self@.workspaces.len() && self@.workspaces[i as int].id == id && forall|k: int|
                    0 <= k < i ==> (#[trigger] self@.workspaces[k]).id != id,
                None => !self@.workspace_exists(id),
            },
    {
        let all: &[Workspace] = self.workspaces();
        let mut i: usize = 0;
        while i < all.len()
            invariant
                i <= all.len(),
                workspace_views(all@) == self@.workspaces,
                forall|k: int| 0 <= k < i ==> (#[trigger] self@.workspaces[k]).id != id,
            decreases all.len() - i,
        {
            assert(self@.workspaces[i as int] == all[i as int]@);
            if all[i].id == id {
                return Some(i);
            }
            i = i + 1;
        }
        None
    }

    pub fn workspace(&self, id: WorkspaceId) -> (r: Option<&Workspace>)
        requires
            self.wf(),
        ensures
            match r {
                Some(w) => w.id == id && self@.workspaces.contains(w@),
                None => !self@.workspace_exists(id),
            },
            self@.workspace_exists(id) ==> r is Some,
            r matches Some(w) ==> w@ == self@.workspace_with(id),
    {
        let all: &[Workspace] = self.workspaces();
        match self.workspace_index(id) {
            Some(i) => {
                proof {
                    assert(self@.workspaces[i as int] == all[i as int]@);
                    self@.lemma_workspace_with(i as int);
                }
                Some(&all[i])
            },
            None => None,
        }
    }

    pub fn add_workspace(&mut self, name: &str, layout: &str) -> (r: WorkspaceId)
        requires
            old(self).wf(),
            old(self)@.next_workspace_id < usize::MAX,
        ensures
            r == old(self)@.next_workspace_id,
            !old(self)@.workspace_exists(r),
            final(self)@ == (State {
                workspaces: old(self)@.workspaces.push(WorkspaceView { id: r, name: name@, layout: layout@ }),
                next_workspace_id: (r + 1) as usize,
                ..old(self)@
            }),
            final(self).wf(),
    {
        proof {
            lemma_pushed_workspace_wf(self@, name@, layout@);
        }
        self.push_workspace(name, layout)
    }

    /// Gives a workspace another name. An unknown id changes nothing.
    pub fn rename_workspace(&mut self, id: WorkspaceId, name: &str)
        requires
            old(self).wf(),
        ensures
            final(self)@ == (State {
                workspaces: old(self)@.workspaces.map_values(renamed(id, name@)),
                ..old(self)@
            }),
            final(self).wf(),
    {
        let found = self.workspace_index(id);
        if let Some(i) = found {
            let layout = self.workspaces()[i].layout.clone();
            self.put_workspace(i, Workspace { id, name: name.to_string(), layout });
        }
        proof {
            let before = old(self)@.workspaces;
            lemma_relabelled_wf(old(self)@, renamed(id, name@));
            assert(self@.workspaces =~= before.map_values(renamed(id, name@))) by {
                reveal(workspaces_ok);
            }
        }
    }

    /// Gives a workspace another layout. An unknown id changes nothing.
    pub fn set_layout(&mut self, workspace: WorkspaceId, layout_name: &str)
        requires
            old(self).wf(),
        ensures
            final(self)@ == old(self)@.with_layout(workspace, layout_name@),
            final(self).wf(),
    {
        let found = self.workspace_index(workspace);
        if let Some(i) = found {
            let name = self.workspaces()[i].name.clone();
            self.put_workspace(i, Workspace { id: workspace, name, layout: layout_name.to_string() });
        }
        proof {
            let before = old(self)@.workspaces;
            lemma_relabelled_wf(old(self)@, relaid(workspace, layout_name@));
            assert(self@.workspaces =~= before.map_values(relaid(workspace, layout_name@))) by {
                reveal(workspaces_ok);
            }
        }
    }

    pub fn layout_name(&self, workspace: WorkspaceId) -> (r: Option<&str>)
        requires
            self.wf(),
        ensures
            match r {
                Some(l) => self@.workspace_exists(workspace) && l@ == self@.workspace_with(workspace).layout,
                None => !self@.workspace_exists(workspace),
            },
    {
        match self.workspace(workspace) {
            Some(w) => {
                proof {
                    let k = choose|k: int| 0 <= k < self@.workspaces.len() && self@.workspaces[k] == w@;
                    assert(self@.workspaces[k].id == workspace);
                }
                Some(w.layout.as_str())
            },
            None => None,
        }
    }

    /// Removes a workspace. Its windows move to the first other one, and so
    /// does the user. The last workspace stays.
    pub fn remove_workspace(&mut self, id: WorkspaceId)
        requires
            old(self).wf(),
        ensures
            final(self)@ == old(self)@.without_workspace(id),
            final(self).wf(),
    {
        if self.workspaces().len() <= 1 {
            return;
        }
        let to: usize = self.other_workspace_than(id);
        self.move_all_between(id, to);
        let kept: Vec<Workspace> = workspaces_without(self.workspaces(), id);
        self.put_workspaces(kept);
        let next: usize = if self.current_workspace() == id { to } else { self.current_workspace() };
        let previous: usize = self.previous_workspace();
        self.put_current(next, previous);
        proof {
            lemma_without_workspace_wf(old(self)@, id);
            assert(self@ == old(self)@.without_workspace(id));
        }
    }

    /// Moves all windows of one workspace to another.
    fn move_all_between(&mut self, from: WorkspaceId, to: WorkspaceId)
        requires
            old(self).wf(),
        ensures
            final(self)@ == (State { windows: each(old(self)@.windows, moved_between(from, to)), ..old(self)@ }),
            final(self).wf(),
    {
        let moved = |w: Window| -> (r: Window)
            ensures
                r == moved_between(from, to)(w),
            { if w.workspace == from { Window { workspace: to, ..w } } else { w } };
        self.rewrite_all(moved, Ghost(moved_between(from, to)));
    }

    /// The first workspace other than `id`.
    fn other_workspace_than(&self, id: WorkspaceId) -> (r: WorkspaceId)
        ensures
            r == first_other(self@.workspaces, id),
    {
        let all: &[Workspace] = self.workspaces();
        let ghost views = self@.workspaces;
        let mut i: usize = 0;
        assert(views.skip(0) =~= views);
        while i < all.len()
            invariant
                i <= all.len(),
                workspace_views(all@) == views,
                views == self@.workspaces,
                first_other(views, id) == first_other(views.skip(i as int), id),
            decreases all.len() - i,
        {
            assert(views.skip(i as int)[0] == all[i as int]@);
            assert(views.skip(i as int).skip(1) =~= views.skip(i + 1));
            if all[i].id != id {
                return all[i].id;
            }
            i = i + 1;
        }
        1
    }
}

impl WindowManager {
    /// Those of the windows that are on a workspace and not minimized.
    pub(super) fn shown_among(&self, ids: &Vec<u64>, workspace: WorkspaceId) -> (r: Vec<u64>)
        requires
            forall|k: int| 0 <= k < ids.len() ==> self@.has(#[trigger] ids[k]),
        ensures
            r@ == ids@.filter(shown_in(self@.windows, workspace)),
    {
        let mut r: Vec<u64> = Vec::new();
        let ghost p = shown_in(self@.windows, workspace);
        let mut i: usize = 0;
        proof {
            lemma_filter_empty(p);
            assert(ids@.take(0) =~= Seq::<u64>::empty());
        }
        while i < ids.len()
            invariant
                i <= ids.len(),
                forall|k: int| 0 <= k < ids.len() ==> self@.has(#[trigger] ids[k]),
                p == shown_in(self@.windows, workspace),
                r@ == ids@.take(i as int).filter(p),
            decreases ids.len() - i,
        {
            let id: u64 = ids[i];
            proof {
                assert(ids@.take(i + 1) =~= ids@.take(i as int).push(id));
                lemma_filter_push(ids@.take(i as int), id, p);
            }
            match self.window(id) {
                Some(w) => {
                    if w.workspace == workspace && !w.minimized {
                        r.push(id);
                    }
                },
                None => {},
            }
            i = i + 1;
        }
        assert(ids@.take(ids.len() as int) =~= ids@);
        r
    }

    /// The windows of a workspace that are not minimized, the topmost first.
    pub fn window_ids_on_workspace_front_to_back(&self, workspace: WorkspaceId) -> (r: Vec<WindowId>)
        requires
            self.wf(),
        ensures
            r@ == self@.front_to_back(workspace),
    {
        let ids: Vec<u64> = reversed(self.order_ids());
        proof {
            self@.lemma_reversed_order();
        }
        self.shown_among(&ids, workspace)
    }

    /// Whether the focused window is on the workspace.
    fn focus_is_on(&self, workspace: WorkspaceId) -> (r: bool)
        ensures
            r == self@.focus_is_on(workspace),
    {
        match self.focused_id() {
            Some(f) => match self.window(f) {
                Some(w) => w.workspace == workspace,
                None => false,
            },
            None => false,
        }
    }

    /// Moves the focus to the topmost window of a workspace that has just come
    /// to show, unless it is there already.
    fn refocus(&mut self, workspace: WorkspaceId)
        requires
            old(self).wf(),
        ensures
            final(self)@ == old(self)@.refocused(workspace),
            final(self).wf(),
    {
        let focused: Option<u64> = self.focus_for(workspace);
        self.put_focused(focused);
        proof {
            lemma_refocused_wf(old(self)@, workspace);
        }
    }

    /// The focused window if it is on the workspace, and the topmost one there
    /// otherwise.
    fn focus_for(&self, workspace: WorkspaceId) -> (r: Option<u64>)
        requires
            self.wf(),
        ensures
            r == self@.refocused(workspace).focused,
    {
        if self.focus_is_on(workspace) {
            return self.focused_id();
        }
        let ids: Vec<u64> = self.window_ids_on_workspace_front_to_back(workspace);
        if ids.len() > 0 {
            Some(ids[0])
        } else {
            None
        }
    }

    /// Switches to a workspace. With `auto_back_and_forth`, switching to the
    /// current one goes back to the one before. An unknown id changes nothing.
    pub fn switch_workspace(&mut self, id: WorkspaceId)
        requires
            old(self).wf(),
        ensures
            final(self)@ == old(self)@.switched(id),
            final(self).wf(),
    {
        let target: usize = if self.goes_back_and_forth() && id == self.current_workspace() {
            self.previous_workspace()
        } else {
            id
        };
        let known: bool = self.workspace_index(target).is_some();
        if known && target != self.current_workspace() {
            self.enter(target);
        }
    }

    /// Makes a workspace the current one.
    fn enter(&mut self, target: WorkspaceId)
        requires
            old(self).wf(),
            old(self)@.workspace_exists(target),
        ensures
            final(self)@ == (State { previous: old(self)@.current, current: target, ..old(self)@ }).refocused(target),
            final(self).wf(),
    {
        let ghost s = State { previous: self@.current, current: target, ..self@ };
        let previous: usize = self.current_workspace();
        self.put_current(target, previous);
        assert(self@ == s);
        assert(s.wf()) by {
            reveal(workspaces_ok);
        }
        self.refocus(target);
    }

    /// The workspace that a monitor shows.
    pub fn workspace_for_monitor(&self, monitor: MonitorId) -> (r: WorkspaceId)
        ensures
            r == self@.shown_on(monitor),
    {
        if self.has_own_workspaces() {
            match self.own_workspace(monitor) {
                Some(w) => w,
                None => self.current_workspace(),
            }
        } else {
            self.current_workspace()
        }
    }

    /// Whether a workspace shows on any monitor.
    pub fn is_workspace_visible(&self, id: WorkspaceId) -> (r: bool)
        ensures
            r == self@.visible_somewhere(id),
    {
        if !self.has_own_workspaces() {
            return id == self.current_workspace();
        }
        let monitors: &[Monitor] = self.monitors();
        let mut i: usize = 0;
        while i < monitors.len()
            invariant
                i <= monitors.len(),
                monitors@ == self@.monitors,
                forall|k: int| 0 <= k < i ==> self@.shown_on((#[trigger] self@.monitors[k]).id) != id,
            decreases monitors.len() - i,
        {
            if self.workspace_for_monitor(monitors[i].id) == id {
                assert(self@.shown_on(self@.monitors[i as int].id) == id);
                return true;
            }
            i = i + 1;
        }
        false
    }

    /// Switches one monitor to a workspace where monitors show workspaces of
    /// their own, and all of them otherwise. Where switching goes back and forth,
    /// asking for the workspace that the monitor shows leads to the one before.
    pub fn switch_workspace_on_monitor(&mut self, id: WorkspaceId, monitor: MonitorId)
        requires
            old(self).wf(),
        ensures
            final(self)@ == old(self)@.switched_on(id, monitor),
            final(self).wf(),
    {
        if !self.has_own_workspaces() {
            self.switch_workspace(id);
            return;
        }
        let current: usize = self.workspace_for_monitor(monitor);
        let target: usize = if self.goes_back_and_forth() && id == current {
            self.previous_workspace()
        } else {
            id
        };
        if self.workspace_index(target).is_none() || target == current {
            return;
        }
        self.enter_on(target, monitor);
    }

    /// Makes a workspace the one that a monitor shows.
    fn enter_on(&mut self, target: WorkspaceId, monitor: MonitorId)
        requires
            old(self).wf(),
        ensures
            final(self)@ == (State {
                previous: old(self)@.shown_on(monitor),
                monitor_workspaces: old(self)@.monitor_workspaces.insert(monitor, target),
                ..old(self)@
            }).refocused(target),
            final(self).wf(),
    {
        let ghost s = State {
            previous: self@.shown_on(monitor),
            monitor_workspaces: self@.monitor_workspaces.insert(monitor, target),
            ..self@
        };
        let previous: usize = self.workspace_for_monitor(monitor);
        let current: usize = self.current_workspace();
        self.put_current(current, previous);
        self.put_own_workspace(monitor, target);
        assert(self@ == s);
        self.refocus(target);
    }

    pub fn move_window_to_workspace(&mut self, id: WindowId, workspace: WorkspaceId)
        requires
            old(self).wf(),
        ensures
            final(self)@ == old(self)@.moved_to_workspace(id, workspace),
            final(self).wf(),
    {
        if let Some(w) = self.window_mut(id) {
            w.workspace = workspace;
        }
    }

    /// Those of the windows that show.
    fn on_show_among(&self, ids: &Vec<u64>) -> (r: Vec<u64>)
        requires
            forall|k: int| 0 <= k < ids.len() ==> self@.has(#[trigger] ids[k]),
        ensures
            r@ == ids@.filter(self@.on_show()),
    {
        let mut r: Vec<u64> = Vec::new();
        let ghost p = self@.on_show();
        let mut i: usize = 0;
        proof {
            lemma_filter_empty(p);
            assert(ids@.take(0) =~= Seq::<u64>::empty());
        }
        while i < ids.len()
            invariant
                i <= ids.len(),
                forall|k: int| 0 <= k < ids.len() ==> self@.has(#[trigger] ids[k]),
                p == self@.on_show(),
                r@ == ids@.take(i as int).filter(p),
            decreases ids.len() - i,
        {
            let id: u64 = ids[i];
            proof {
                assert(ids@.take(i + 1) =~= ids@.take(i as int).push(id));
                lemma_filter_push(ids@.take(i as int), id, p);
            }
            match self.window(id) {
                Some(w) => {
                    if w.workspace == self.workspace_for_monitor(w.monitor) && !w.minimized {
                        r.push(id);
                    }
                },
                None => {},
            }
            i = i + 1;
        }
        assert(ids@.take(ids.len() as int) =~= ids@);
        r
    }

    /// The windows that show: those on the workspace that their monitor shows,
    /// unless minimized. In the order in which they were added.
    pub fn visible_windows(&self) -> (r: Vec<&Window>)
        requires
            self.wf(),
        ensures
            lists(r@, self@.created.filter(self@.on_show()), self@.windows),
    {
        proof {
            self@.lemma_created_exist();
            lemma_filter(self@.created, self@.on_show());
        }
        let ids: Vec<u64> = self.on_show_among(self.created_ids());
        proof {
            self@.lemma_filtered_exist(self@.created, self@.on_show());
        }
        self.look_up(&ids)
    }

    /// The windows that show, the topmost first.
    pub fn visible_windows_front_to_back(&self) -> (r: Vec<&Window>)
        requires
            self.wf(),
        ensures
            lists(r@, self@.order.reverse().filter(self@.on_show()), self@.windows),
    {
        let order: Vec<u64> = reversed(self.order_ids());
        proof {
            self@.lemma_reversed_order();
        }
        let ids: Vec<u64> = self.on_show_among(&order);
        proof {
            self@.lemma_filtered_exist(self@.order.reverse(), self@.on_show());
        }
        self.look_up(&ids)
    }
}

} // verus!
